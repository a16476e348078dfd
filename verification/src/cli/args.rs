//! Command-line arguments.

use crate::config::{HardwareAcceleration, QualityPreset, TargetVideoCodec};
use crate::text::{
    chars_of, decimal, ends_with, float_text, is_digit, is_float_text, lemma_decimal_roundtrip,
    lemma_decimal_value, lower, lower_char, lower_str, parse_unsigned, parse_unsigned_chars, same,
    starts_with, str_starts_with, strip_suffix, trim, trim_str, views,
};
use vstd::prelude::*;
use vstd::string::StringExecFns;

verus! {

/// What `--help` prints.
pub const USAGE: &'static str =
    "usage: azalea-cli [OPTIONS] [URL]...\n\nWith no URLs and no --input, enters interactive mode: paste one link\nper line and it downloads immediately, so options don't need retyping.\n\nOptions:\n  --input <FILE>        Read newline-delimited URLs from FILE\n  -o, --output <DIR>    Output directory (default: current directory)\n  --codec <MODE>        auto|av1|hevc|h264|copy (default: auto = hardware HEVC)\n  --quality <PRESET>    fast|balanced|quality|size (default: balanced)\n  --crf <N>             Override the quality preset's CRF/CQ value\n  --max-size <SIZE>     Target output size (e.g. 50MB); default is CRF mode\n  --hw <BACKEND>        auto|none|nvenc|vaapi|videotoolbox|qsv|amf (default: auto)\n  -j, --concurrency <N> Concurrent jobs (default: 1)\n  --discord-cap         Use the bot's Discord upload-size ladder instead\n  -h, --help            Print this message";

/// The codec that the user asks for.
#[derive(Debug, Clone, Copy, PartialEq, Eq, Structural)]
pub enum CodecChoice {
    Auto,
    Av1,
    Hevc,
    H264,
    /// Keep the downloaded file as it is.
    Copy,
}

impl CodecChoice {
    /// The codec to encode to; nothing where the file is kept.
    pub fn target_codec(self) -> (r: Option<TargetVideoCodec>)
        ensures
            r == self.target(),
    {
        match self {
            CodecChoice::Auto => Some(TargetVideoCodec::Hevc),
            CodecChoice::Hevc => Some(TargetVideoCodec::Hevc),
            CodecChoice::Av1 => Some(TargetVideoCodec::Av1),
            CodecChoice::H264 => Some(TargetVideoCodec::H264),
            CodecChoice::Copy => None,
        }
    }

    pub open spec fn target(self) -> Option<TargetVideoCodec> {
        match self {
            CodecChoice::Auto => Some(TargetVideoCodec::Hevc),
            CodecChoice::Hevc => Some(TargetVideoCodec::Hevc),
            CodecChoice::Av1 => Some(TargetVideoCodec::Av1),
            CodecChoice::H264 => Some(TargetVideoCodec::H264),
            CodecChoice::Copy => None,
        }
    }
}

/// The encoder backend that the user asks for.
#[derive(Debug, Clone, Copy, PartialEq, Eq, Structural)]
pub enum HwChoice {
    /// By operating system.
    Auto,
    Software,
    Nvenc,
    Vaapi,
    VideoToolbox,
    Qsv,
    Amf,
}

impl HwChoice {
    pub open spec fn backend(self, windows: bool) -> HardwareAcceleration {
        match self {
            HwChoice::Auto => if windows {
                HardwareAcceleration::Amf
            } else {
                HardwareAcceleration::Nvenc
            },
            HwChoice::Software => HardwareAcceleration::Software,
            HwChoice::Nvenc => HardwareAcceleration::Nvenc,
            HwChoice::Vaapi => HardwareAcceleration::Vaapi,
            HwChoice::VideoToolbox => HardwareAcceleration::VideoToolbox,
            HwChoice::Qsv => HardwareAcceleration::Qsv,
            HwChoice::Amf => HardwareAcceleration::Amf,
        }
    }

    /// The backend to use on this system.
    pub fn resolve(self, windows: bool) -> (r: HardwareAcceleration)
        ensures
            r == self.backend(windows),
    {
        match self {
            HwChoice::Auto => {
                if windows {
                    HardwareAcceleration::Amf
                } else {
                    HardwareAcceleration::Nvenc
                }
            },
            HwChoice::Software => HardwareAcceleration::Software,
            HwChoice::Nvenc => HardwareAcceleration::Nvenc,
            HwChoice::Vaapi => HardwareAcceleration::Vaapi,
            HwChoice::VideoToolbox => HardwareAcceleration::VideoToolbox,
            HwChoice::Qsv => HardwareAcceleration::Qsv,
            HwChoice::Amf => HardwareAcceleration::Amf,
        }
    }
}

#[derive(Debug, Clone)]
pub struct CliArgs {
    pub urls: Vec<String>,
    pub input_file: Option<String>,
    pub output_dir: String,
    pub codec: CodecChoice,
    pub quality: QualityPreset,
    pub crf: Option<u8>,
    pub max_size_bytes: Option<u64>,
    pub hw: HwChoice,
    /// Jobs that run at once.
    pub concurrency: u32,
    /// Fit the upload limit and split, as for an upload.
    pub discord_cap: bool,
}

/// What arguments say, as values.
pub struct ArgsModel {
    pub urls: Seq<Seq<char>>,
    pub input_file: Option<Seq<char>>,
    pub output_dir: Seq<char>,
    pub codec: CodecChoice,
    pub quality: QualityPreset,
    pub crf: Option<u8>,
    pub max_size_bytes: Option<u64>,
    pub hw: HwChoice,
    pub concurrency: u32,
    pub discord_cap: bool,
}

impl View for CliArgs {
    type V = ArgsModel;

    open spec fn view(&self) -> ArgsModel {
        ArgsModel {
            urls: views(self.urls@),
            input_file: match self.input_file {
                Some(path) => Some(path@),
                None => None,
            },
            output_dir: self.output_dir@,
            codec: self.codec,
            quality: self.quality,
            crf: self.crf,
            max_size_bytes: self.max_size_bytes,
            hw: self.hw,
            concurrency: self.concurrency,
            discord_cap: self.discord_cap,
        }
    }
}

/// The arguments where nothing is given.
pub open spec fn default_model(output_dir: Seq<char>) -> ArgsModel {
    ArgsModel {
        urls: Seq::empty(),
        input_file: None,
        output_dir,
        codec: CodecChoice::Auto,
        quality: QualityPreset::Balanced,
        crf: None,
        max_size_bytes: None,
        hw: HwChoice::Auto,
        concurrency: 1,
        discord_cap: false,
    }
}

impl Default for CliArgs {
    fn default() -> (r: Self)
        ensures
            r@ == default_model("."@),
    {
        CliArgs::in_dir(".".to_owned())
    }
}

// ---------------------------------------------------------------------------
// Single values
// ---------------------------------------------------------------------------
pub open spec fn codec_named(raw: Seq<char>) -> Option<CodecChoice> {
    if raw == "auto"@ {
        Some(CodecChoice::Auto)
    } else if raw == "av1"@ {
        Some(CodecChoice::Av1)
    } else if raw == "hevc"@ || raw == "h265"@ {
        Some(CodecChoice::Hevc)
    } else if raw == "h264"@ {
        Some(CodecChoice::H264)
    } else if raw == "copy"@ {
        Some(CodecChoice::Copy)
    } else {
        None
    }
}

pub open spec fn codec_error(raw: Seq<char>) -> Seq<char> {
    "unknown --codec value: "@ + raw + " (expected auto|av1|hevc|h264|copy)"@
}

pub fn parse_codec(raw: &str) -> (r: Result<CodecChoice, String>)
    ensures
        r is Ok <==> codec_named(raw@) is Some,
        r matches Ok(c) ==> codec_named(raw@) == Some(c),
        r matches Err(e) ==> e@ == codec_error(raw@),
{
    if same(raw, "auto") {
        Ok(CodecChoice::Auto)
    } else if same(raw, "av1") {
        Ok(CodecChoice::Av1)
    } else if same(raw, "hevc") || same(raw, "h265") {
        Ok(CodecChoice::Hevc)
    } else if same(raw, "h264") {
        Ok(CodecChoice::H264)
    } else if same(raw, "copy") {
        Ok(CodecChoice::Copy)
    } else {
        let mut e = "unknown --codec value: ".to_owned();
        e.append(raw);
        e.append(" (expected auto|av1|hevc|h264|copy)");
        Err(e)
    }
}

pub open spec fn quality_named(raw: Seq<char>) -> Option<QualityPreset> {
    if raw == "fast"@ {
        Some(QualityPreset::Fast)
    } else if raw == "balanced"@ {
        Some(QualityPreset::Balanced)
    } else if raw == "quality"@ {
        Some(QualityPreset::Quality)
    } else if raw == "size"@ {
        Some(QualityPreset::Size)
    } else {
        None
    }
}

pub open spec fn quality_error(raw: Seq<char>) -> Seq<char> {
    "unknown --quality value: "@ + raw + " (expected fast|balanced|quality|size)"@
}

pub fn parse_quality(raw: &str) -> (r: Result<QualityPreset, String>)
    ensures
        r is Ok <==> quality_named(raw@) is Some,
        r matches Ok(q) ==> quality_named(raw@) == Some(q),
        r matches Err(e) ==> e@ == quality_error(raw@),
{
    if same(raw, "fast") {
        Ok(QualityPreset::Fast)
    } else if same(raw, "balanced") {
        Ok(QualityPreset::Balanced)
    } else if same(raw, "quality") {
        Ok(QualityPreset::Quality)
    } else if same(raw, "size") {
        Ok(QualityPreset::Size)
    } else {
        let mut e = "unknown --quality value: ".to_owned();
        e.append(raw);
        e.append(" (expected fast|balanced|quality|size)");
        Err(e)
    }
}

pub open spec fn hw_named(raw: Seq<char>) -> Option<HwChoice> {
    if raw == "auto"@ {
        Some(HwChoice::Auto)
    } else if raw == "none"@ {
        Some(HwChoice::Software)
    } else if raw == "nvenc"@ {
        Some(HwChoice::Nvenc)
    } else if raw == "vaapi"@ {
        Some(HwChoice::Vaapi)
    } else if raw == "videotoolbox"@ {
        Some(HwChoice::VideoToolbox)
    } else if raw == "qsv"@ {
        Some(HwChoice::Qsv)
    } else if raw == "amf"@ {
        Some(HwChoice::Amf)
    } else {
        None
    }
}

pub open spec fn hw_error(raw: Seq<char>) -> Seq<char> {
    "unknown --hw value: "@ + raw
        + " (expected auto|none|nvenc|vaapi|videotoolbox|qsv|amf)"@
}

pub fn parse_hw(raw: &str) -> (r: Result<HwChoice, String>)
    ensures
        r is Ok <==> hw_named(raw@) is Some,
        r matches Ok(h) ==> hw_named(raw@) == Some(h),
        r matches Err(e) ==> e@ == hw_error(raw@),
{
    if same(raw, "auto") {
        Ok(HwChoice::Auto)
    } else if same(raw, "none") {
        Ok(HwChoice::Software)
    } else if same(raw, "nvenc") {
        Ok(HwChoice::Nvenc)
    } else if same(raw, "vaapi") {
        Ok(HwChoice::Vaapi)
    } else if same(raw, "videotoolbox") {
        Ok(HwChoice::VideoToolbox)
    } else if same(raw, "qsv") {
        Ok(HwChoice::Qsv)
    } else if same(raw, "amf") {
        Ok(HwChoice::Amf)
    } else {
        let mut e = "unknown --hw value: ".to_owned();
        e.append(raw);
        e.append(" (expected auto|none|nvenc|vaapi|videotoolbox|qsv|amf)");
        Err(e)
    }
}

/// A size as it was written: a number and its unit in bytes.
#[derive(Debug)]
pub struct SizeText {
    /// The value without surrounding blanks.
    pub raw: String,
    /// The number before the unit.
    pub digits: String,
    pub multiplier: u64,
}

/// What a size says.
#[derive(Debug)]
pub enum SizeValue {
    Bytes { bytes: u64 },
    /// A number with a fraction or beyond what a fraction holds exactly.
    Fraction { size: SizeText },
    Invalid { message: String },
}

/// The largest whole number up to which every whole number is held exactly
/// where fractions are too.
pub const EXACT_WHOLE: u64 = 9_007_199_254_740_992;

/// The unit at the end of a lower-case size, and how long it is.
pub open spec fn size_unit(lowered: Seq<char>) -> (nat, int) {
    if ends_with(lowered, "gb"@) {
        (1024 * 1024 * 1024, 2)
    } else if ends_with(lowered, "mb"@) {
        (1024 * 1024, 2)
    } else if ends_with(lowered, "kb"@) {
        (1024, 2)
    } else if ends_with(lowered, "b"@) {
        (1, 1)
    } else {
        (1, 0)
    }
}

/// The number before the unit.
pub open spec fn size_digits(raw: Seq<char>) -> Seq<char> {
    let lowered = lower(trim(raw));
    trim(lowered.take(lowered.len() - size_unit(lowered).1))
}

/// The unit of a size in bytes.
pub open spec fn size_multiplier(raw: Seq<char>) -> nat {
    size_unit(lower(trim(raw))).0
}

/// A whole number of bytes, at most what the counter holds.
pub open spec fn whole_bytes(n: nat, multiplier: nat) -> u64 {
    if n * multiplier > u64::MAX {
        u64::MAX
    } else {
        (n * multiplier) as u64
    }
}

/// `text` splits the size `raw`.
pub open spec fn splits_size(text: SizeText, raw: Seq<char>) -> bool {
    text.raw@ == trim(raw) && text.digits@ == size_digits(raw) && text.multiplier
        == size_multiplier(raw)
}

pub open spec fn size_error_text(raw: Seq<char>) -> Seq<char> {
    "invalid --max-size value: "@ + trim(raw)
}

pub open spec fn size_sign_text(raw: Seq<char>) -> Seq<char> {
    "--max-size must be a positive number: "@ + trim(raw)
}

/// Read a size: a number and perhaps a unit behind it.
pub fn parse_size(raw: &str) -> (r: SizeValue)
    ensures
        match parse_unsigned(size_digits(raw@), EXACT_WHOLE as nat) {
            Some(n) => if n == 0 {
                r matches SizeValue::Invalid { message } && message@ == size_sign_text(raw@)
            } else {
                r == (SizeValue::Bytes { bytes: whole_bytes(n, size_multiplier(raw@)) })
            },
            None => if is_float_text(size_digits(raw@)) {
                r matches SizeValue::Fraction { size } && splits_size(size, raw@)
            } else {
                r matches SizeValue::Invalid { message } && message@ == size_error_text(raw@)
            },
        },
{
    let size = split_size(raw);
    let chars = chars_of(size.digits.as_str());
    match parse_unsigned_chars(&chars, EXACT_WHOLE) {
        Some(n) => {
            if n == 0 {
                return SizeValue::Invalid { message: size_sign_error(size.raw.as_str()) };
            }
            proof {
                assert(n * size.multiplier <= 0xffff_ffff_ffff_ffff * 1_073_741_824)
                    by (nonlinear_arith)
                    requires
                        0 <= n <= 0xffff_ffff_ffff_ffff,
                        0 <= size.multiplier <= 1_073_741_824,
                ;
                assert(n * size.multiplier >= 0) by (nonlinear_arith)
                    requires
                        n >= 0,
                        size.multiplier >= 0,
                ;
            }
            let bytes: u128 = n as u128 * size.multiplier as u128;
            SizeValue::Bytes {
                bytes: if bytes > u64::MAX as u128 {
                    u64::MAX
                } else {
                    bytes as u64
                },
            }
        },
        None => {
            if float_text(size.digits.as_str()) {
                SizeValue::Fraction { size }
            } else {
                SizeValue::Invalid { message: size_error(size.raw.as_str()) }
            }
        },
    }
}

/// Split a size into its number and its unit.
fn split_size(raw: &str) -> (r: SizeText)
    ensures
        splits_size(r, raw@),
        r.multiplier <= 1024 * 1024 * 1024,
{
    proof {
        reveal_strlit("gb");
        reveal_strlit("mb");
        reveal_strlit("kb");
        reveal_strlit("b");
    }
    let trimmed = trim_str(raw);
    let lowered = lower_str(trimmed.as_str());
    assert(lowered@.take(lowered@.len() as int) =~= lowered@);
    let (digits, multiplier): (String, u64) = if let Some(prefix) = strip_suffix(
        lowered.as_str(),
        "gb",
    ) {
        (prefix, 1024 * 1024 * 1024)
    } else if let Some(prefix) = strip_suffix(lowered.as_str(), "mb") {
        (prefix, 1024 * 1024)
    } else if let Some(prefix) = strip_suffix(lowered.as_str(), "kb") {
        (prefix, 1024)
    } else if let Some(prefix) = strip_suffix(lowered.as_str(), "b") {
        (prefix, 1)
    } else {
        (lowered, 1)
    };
    SizeText { raw: trimmed, digits: trim_str(digits.as_str()), multiplier }
}

/// The number of a size is not one.
fn size_error(raw: &str) -> (s: String)
    ensures
        s@ == "invalid --max-size value: "@ + raw@,
{
    let mut s = "invalid --max-size value: ".to_owned();
    s.append(raw);
    s
}

/// The number of a size is not positive and finite.
pub fn size_sign_error(raw: &str) -> (s: String)
    ensures
        s@ == "--max-size must be a positive number: "@ + raw@,
{
    let mut s = "--max-size must be a positive number: ".to_owned();
    s.append(raw);
    s
}

// ---------------------------------------------------------------------------
// The argument list
// ---------------------------------------------------------------------------
/// Where parsing stands after reading arguments.
pub enum ParseModel {
    Finished { args: ArgsModel },
    Help,
    Failed { message: Seq<char> },
    /// A size with a fraction was read; parsing goes on at `next` once it is
    /// known in bytes.
    Measure { args: ArgsModel, next: int, raw: Seq<char> },
}

/// What one option does: the next place and the arguments so far, or an end.
pub enum OptionModel {
    Go { next: int, args: ArgsModel },
    Stop { result: ParseModel },
}

pub open spec fn missing_value(flag: Seq<char>) -> OptionModel {
    OptionModel::Stop { result: ParseModel::Failed { message: flag + " requires a value"@ } }
}

pub open spec fn failed(message: Seq<char>) -> OptionModel {
    OptionModel::Stop { result: ParseModel::Failed { message } }
}

/// The option at place `i`.
pub open spec fn option_at(values: Seq<Seq<char>>, i: int, a: ArgsModel) -> OptionModel {
    let arg = values[i];
    let has_value = i + 1 < values.len();
    let value = values[i + 1];
    if arg == "-h"@ || arg == "--help"@ {
        OptionModel::Stop { result: ParseModel::Help }
    } else if arg == "--input"@ {
        if has_value {
            OptionModel::Go { next: i + 2, args: ArgsModel { input_file: Some(value), ..a } }
        } else {
            missing_value("--input"@)
        }
    } else if arg == "-o"@ || arg == "--output"@ {
        if has_value {
            OptionModel::Go { next: i + 2, args: ArgsModel { output_dir: value, ..a } }
        } else {
            missing_value("--output"@)
        }
    } else if arg == "--codec"@ {
        if !has_value {
            missing_value("--codec"@)
        } else {
            match codec_named(value) {
                Some(codec) => OptionModel::Go { next: i + 2, args: ArgsModel { codec, ..a } },
                None => failed(codec_error(value)),
            }
        }
    } else if arg == "--quality"@ {
        if !has_value {
            missing_value("--quality"@)
        } else {
            match quality_named(value) {
                Some(quality) => OptionModel::Go { next: i + 2, args: ArgsModel { quality, ..a } },
                None => failed(quality_error(value)),
            }
        }
    } else if arg == "--crf"@ {
        if !has_value {
            missing_value("--crf"@)
        } else {
            match parse_unsigned(value, 255) {
                Some(n) => OptionModel::Go {
                    next: i + 2,
                    args: ArgsModel { crf: Some(n as u8), ..a },
                },
                None => failed("invalid --crf value: "@ + value),
            }
        }
    } else if arg == "--max-size"@ {
        if !has_value {
            missing_value("--max-size"@)
        } else {
            match parse_unsigned(size_digits(value), EXACT_WHOLE as nat) {
                Some(n) => if n == 0 {
                    failed(size_sign_text(value))
                } else {
                    OptionModel::Go {
                        next: i + 2,
                        args: ArgsModel {
                            max_size_bytes: Some(whole_bytes(n, size_multiplier(value))),
                            ..a
                        },
                    }
                },
                None => if is_float_text(size_digits(value)) {
                    OptionModel::Stop {
                        result: ParseModel::Measure { args: a, next: i + 2, raw: value },
                    }
                } else {
                    failed(size_error_text(value))
                },
            }
        }
    } else if arg == "--hw"@ {
        if !has_value {
            missing_value("--hw"@)
        } else {
            match hw_named(value) {
                Some(hw) => OptionModel::Go { next: i + 2, args: ArgsModel { hw, ..a } },
                None => failed(hw_error(value)),
            }
        }
    } else if arg == "-j"@ || arg == "--concurrency"@ {
        if !has_value {
            missing_value("--concurrency"@)
        } else {
            match parse_unsigned(value, u32::MAX as nat) {
                Some(n) => if n == 0 {
                    failed("--concurrency must be at least 1"@)
                } else {
                    OptionModel::Go {
                        next: i + 2,
                        args: ArgsModel { concurrency: n as u32, ..a },
                    }
                },
                None => failed("invalid --concurrency value: "@ + value),
            }
        }
    } else if arg == "--discord-cap"@ {
        OptionModel::Go { next: i + 1, args: ArgsModel { discord_cap: true, ..a } }
    } else if starts_with(arg, "-"@) {
        failed("unknown option: "@ + arg)
    } else {
        OptionModel::Go { next: i + 1, args: ArgsModel { urls: a.urls.push(arg), ..a } }
    }
}

/// All options from place `i` on.
pub open spec fn options_from(values: Seq<Seq<char>>, i: int, a: ArgsModel) -> ParseModel
    decreases values.len() - i,
{
    if i < 0 || i >= values.len() {
        ParseModel::Finished { args: a }
    } else {
        match option_at(values, i, a) {
            OptionModel::Go { next, args } => if next > i {
                options_from(values, next, args)
            } else {
                ParseModel::Finished { args }
            },
            OptionModel::Stop { result } => result,
        }
    }
}

/// Where parsing stands.
#[derive(Debug)]
pub enum ParseResult {
    Finished { args: CliArgs },
    /// The usage text was asked for.
    Help,
    Failed { message: String },
    /// A size with a fraction was read. Parsing goes on at `next` once it is
    /// known in bytes.
    Measure { args: CliArgs, next: usize, size: SizeText },
}

impl ParseResult {
    /// The result as values.
    pub open spec fn is(&self, model: ParseModel) -> bool {
        match (*self, model) {
            (ParseResult::Finished { args }, ParseModel::Finished { args: m }) => args@ == m,
            (ParseResult::Help, ParseModel::Help) => true,
            (ParseResult::Failed { message }, ParseModel::Failed { message: m }) => message@ == m,
            (
                ParseResult::Measure { args, next, size },
                ParseModel::Measure { args: m, next: n, raw },
            ) => args@ == m && next == n && splits_size(size, raw),
            _ => false,
        }
    }
}

fn missing(flag: &str) -> (r: ParseResult)
    ensures
        r matches ParseResult::Failed { message } && message@ == flag@ + " requires a value"@,
{
    let mut s = flag.to_owned();
    s.append(" requires a value");
    ParseResult::Failed { message: s }
}

fn bad_value(prefix: &str, raw: &str) -> (r: ParseResult)
    ensures
        r matches ParseResult::Failed { message } && message@ == prefix@ + raw@,
{
    let mut s = prefix.to_owned();
    s.append(raw);
    ParseResult::Failed { message: s }
}

/// What an option that takes a value does.
enum Taken {
    Kept,
    End(ParseResult),
}

impl CliArgs {
    /// Nothing given; files go to `output_dir`.
    pub fn in_dir(output_dir: String) -> (r: Self)
        ensures
            r@ == default_model(output_dir@),
    {
        let r = CliArgs {
            urls: Vec::new(),
            input_file: None,
            output_dir,
            codec: CodecChoice::Auto,
            quality: QualityPreset::Balanced,
            crf: None,
            max_size_bytes: None,
            hw: HwChoice::Auto,
            concurrency: 1,
            discord_cap: false,
        };
        assert(r@.urls =~= Seq::empty());
        r
    }

    /// Whether links are to be asked for one by one.
    pub fn is_interactive(&self) -> (r: bool)
        ensures
            r == (self@.urls.len() == 0 && self@.input_file is None),
    {
        self.urls.len() == 0 && self.input_file.is_none()
    }

    /// Take the value of an option that is none of the sizes.
    fn take_value(&mut self, arg: &str, value: &str) -> (r: Taken)
        requires
            takes_plain_value(arg@),
        ensures
            ({
                let values = seq![arg@, value@];
                match (r, option_at(values, 0, old(self)@)) {
                    (Taken::Kept, OptionModel::Go { next, args }) => final(self)@ == args && next
                        == 2,
                    (Taken::End(result), OptionModel::Stop { result: model }) => result.is(model),
                    _ => false,
                }
            }),
    {
        proof {
            lemma_names();
        }
        if same(arg, "--input") {
            self.input_file = Some(value.to_owned());
        } else if same(arg, "-o") || same(arg, "--output") {
            self.output_dir = value.to_owned();
        } else if same(arg, "--codec") {
            match parse_codec(value) {
                Ok(codec) => {
                    self.codec = codec;
                },
                Err(message) => {
                    return Taken::End(ParseResult::Failed { message });
                },
            }
        } else if same(arg, "--quality") {
            match parse_quality(value) {
                Ok(quality) => {
                    self.quality = quality;
                },
                Err(message) => {
                    return Taken::End(ParseResult::Failed { message });
                },
            }
        } else if same(arg, "--crf") {
            let digits = chars_of(value);
            match parse_unsigned_chars(&digits, 255) {
                Some(n) => {
                    self.crf = Some(n as u8);
                },
                None => {
                    return Taken::End(bad_value("invalid --crf value: ", value));
                },
            }
        } else if same(arg, "--hw") {
            match parse_hw(value) {
                Ok(hw) => {
                    self.hw = hw;
                },
                Err(message) => {
                    return Taken::End(ParseResult::Failed { message });
                },
            }
        } else {
            let digits = chars_of(value);
            match parse_unsigned_chars(&digits, u32::MAX as u64) {
                Some(n) => {
                    if n == 0 {
                        return Taken::End(
                            ParseResult::Failed {
                                message: "--concurrency must be at least 1".to_owned(),
                            },
                        );
                    }
                    self.concurrency = n as u32;
                },
                None => {
                    return Taken::End(bad_value("invalid --concurrency value: ", value));
                },
            }
        }
        Taken::Kept
    }

    /// Read options from place `start` on, on top of what is known so far.
    pub fn parse(self, values: &Vec<String>, start: usize) -> (r: ParseResult)
        ensures
            r.is(options_from(views(values@), start as int, self@)),
    {
        let ghost all = views(values@);
        let ghost goal = options_from(all, start as int, self@);
        let mut args = self;
        let mut i: usize = start;
        while i < values.len()
            invariant
                all == views(values@),
                goal == options_from(all, start as int, self@),
                goal == options_from(all, i as int, args@),
            decreases values@.len() - i,
        {
            let arg = values[i].as_str();
            assert(all[i as int] == arg@);
            proof {
                lemma_names();
            }
            if same(arg, "-h") || same(arg, "--help") {
                return ParseResult::Help;
            }
            if same(arg, "--discord-cap") {
                args.discord_cap = true;
                i = i + 1;
                continue ;
            }
            let flag = match plain_flag(arg) {
                Some(flag) => flag,
                None => {
                    if same(arg, "--max-size") {
                        if i + 1 >= values.len() {
                            return missing("--max-size");
                        }
                        assert(all[i + 1] == values@[i + 1]@);
                        match parse_size(values[i + 1].as_str()) {
                            SizeValue::Bytes { bytes } => {
                                args.max_size_bytes = Some(bytes);
                                i = i + 2;
                                continue ;
                            },
                            SizeValue::Fraction { size } => {
                                return ParseResult::Measure { args, next: i + 2, size };
                            },
                            SizeValue::Invalid { message } => {
                                return ParseResult::Failed { message };
                            },
                        }
                    }
                    if str_starts_with(arg, "-") {
                        return bad_value("unknown option: ", arg);
                    }
                    let ghost before = args.urls@;
                    args.urls.push(arg.to_owned());
                    assert(views(args.urls@) =~= views(before).push(arg@));
                    i = i + 1;
                    continue ;
                },
            };
            if i + 1 >= values.len() {
                return missing(flag);
            }
            let value = values[i + 1].as_str();
            assert(all[i + 1] == value@);
            let ghost model = args@;
            let taken = args.take_value(arg, value);
            proof {
                lemma_option_is_local(all, i as int, model);
                assert(seq![arg@, value@] =~= all.subrange(i as int, i + 2));
            }
            match taken {
                Taken::Kept => {
                    i = i + 2;
                },
                Taken::End(result) => {
                    return result;
                },
            }
        }
        ParseResult::Finished { args }
    }
}

/// The options whose value is read on the spot.
pub open spec fn takes_plain_value(arg: Seq<char>) -> bool {
    ||| arg == "--input"@
    ||| arg == "-o"@
    ||| arg == "--output"@
    ||| arg == "--codec"@
    ||| arg == "--quality"@
    ||| arg == "--crf"@
    ||| arg == "--hw"@
    ||| arg == "-j"@
    ||| arg == "--concurrency"@
}

/// The name that such an option goes by in messages.
fn plain_flag(arg: &str) -> (r: Option<&'static str>)
    ensures
        r is Some <==> takes_plain_value(arg@),
        r matches Some(flag) ==> flag@ == (if arg@ == "-o"@ {
            "--output"@
        } else if arg@ == "-j"@ {
            "--concurrency"@
        } else {
            arg@
        }),
{
    proof {
        lemma_names();
    }
    if same(arg, "--input") {
        Some("--input")
    } else if same(arg, "-o") || same(arg, "--output") {
        Some("--output")
    } else if same(arg, "--codec") {
        Some("--codec")
    } else if same(arg, "--quality") {
        Some("--quality")
    } else if same(arg, "--crf") {
        Some("--crf")
    } else if same(arg, "--hw") {
        Some("--hw")
    } else if same(arg, "-j") || same(arg, "--concurrency") {
        Some("--concurrency")
    } else {
        None
    }
}

/// The options have different names.
proof fn lemma_names()
    ensures
        "-h"@ != "-o"@,
        "-h"@ != "-j"@,
        "-o"@ != "-j"@,
        "-h"@.len() == 2,
        "-o"@.len() == 2,
        "-j"@.len() == 2,
        "--help"@.len() == 6,
        "--input"@.len() == 7,
        "--output"@.len() == 8,
        "--codec"@.len() == 7,
        "--quality"@.len() == 9,
        "--crf"@.len() == 5,
        "--max-size"@.len() == 10,
        "--hw"@.len() == 4,
        "--concurrency"@.len() == 13,
        "--discord-cap"@.len() == 13,
        "--input"@ != "--codec"@,
        "--concurrency"@ != "--discord-cap"@,
{
    reveal_strlit("-h");
    reveal_strlit("-o");
    reveal_strlit("-j");
    reveal_strlit("--help");
    reveal_strlit("--input");
    reveal_strlit("--output");
    reveal_strlit("--codec");
    reveal_strlit("--quality");
    reveal_strlit("--crf");
    reveal_strlit("--max-size");
    reveal_strlit("--hw");
    reveal_strlit("--concurrency");
    reveal_strlit("--discord-cap");
    assert("-h"@[1] != "-o"@[1]);
    assert("-h"@[1] != "-j"@[1]);
    assert("-o"@[1] != "-j"@[1]);
    assert("--input"@[2] != "--codec"@[2]);
    assert("--concurrency"@[2] != "--discord-cap"@[2]);
}

/// An option with a plain value looks no further than that value.
proof fn lemma_option_is_local(values: Seq<Seq<char>>, i: int, a: ArgsModel)
    requires
        0 <= i,
        i + 1 < values.len(),
        takes_plain_value(values[i]),
    ensures
        option_at(values, i, a) == (match option_at(values.subrange(i, i + 2), 0, a) {
            OptionModel::Go { next, args } => OptionModel::Go { next: next + i, args },
            OptionModel::Stop { result } => OptionModel::Stop { result },
        }),
{
    lemma_names();
    let two = values.subrange(i, i + 2);
    assert(two[0] == values[i]);
    assert(two[1] == values[i + 1]);
}

/// Behind a size with a fraction parsing goes on strictly further, so it ends.
pub proof fn lemma_measuring_advances(values: Seq<Seq<char>>, i: int, a: ArgsModel)
    requires
        0 <= i,
    ensures
        options_from(values, i, a) matches ParseModel::Measure { next, .. } ==> i < next
            <= values.len(),
    decreases values.len() - i,
{
    if i < values.len() {
        match option_at(values, i, a) {
            OptionModel::Go { next, args } => {
                if next > i {
                    lemma_measuring_advances(values, next, args);
                }
            },
            OptionModel::Stop { .. } => {},
        }
    }
}

// ---------------------------------------------------------------------------
// What names select
// ---------------------------------------------------------------------------
/// Each codec name selects the codec of that name, `auto` is HEVC, and `copy`
/// encodes nothing. No other name selects a codec, and names of different
/// codecs never make the same choice.
pub proof fn lemma_codec_names_select_their_codec(raw: Seq<char>, other: Seq<char>)
    ensures
        codec_named(raw) is Some <==> raw == "h264"@ || raw == "hevc"@ || raw == "h265"@ || raw
            == "av1"@ || raw == "copy"@ || raw == "auto"@,
        codec_named(raw) matches Some(choice) ==> {
            &&& choice.target() == Some(TargetVideoCodec::H264) <==> raw == "h264"@
            &&& choice.target() == Some(TargetVideoCodec::Av1) <==> raw == "av1"@
            &&& choice.target() == Some(TargetVideoCodec::Hevc) <==> raw == "hevc"@ || raw
                == "h265"@ || raw == "auto"@
            &&& choice.target() is None <==> raw == "copy"@
        },
        codec_named(raw) is Some && codec_named(raw) == codec_named(other) ==> raw == other || ((raw
            == "hevc"@ || raw == "h265"@) && (other == "hevc"@ || other == "h265"@)),
{
    reveal_strlit("auto");
    reveal_strlit("av1");
    reveal_strlit("hevc");
    reveal_strlit("h265");
    reveal_strlit("h264");
    reveal_strlit("copy");
    assert("auto"@[0] != "copy"@[0]);
    assert("auto"@[0] != "hevc"@[0]);
    assert("auto"@[0] != "h264"@[0]);
    assert("hevc"@[1] != "h264"@[1]);
    assert("h265"@[3] != "h264"@[3]);
    assert("copy"@[0] != "h264"@[0]);
    assert("copy"@[0] != "hevc"@[0]);
    assert("copy"@[0] != "h265"@[0]);
    assert("auto"@[0] != "h265"@[0]);
    assert("av1"@.len() == 3);
}

/// Each preset name selects the preset of that name, and nothing else does.
pub proof fn lemma_quality_names_select_their_preset(raw: Seq<char>)
    ensures
        quality_named(raw) == Some(QualityPreset::Fast) <==> raw == "fast"@,
        quality_named(raw) == Some(QualityPreset::Balanced) <==> raw == "balanced"@,
        quality_named(raw) == Some(QualityPreset::Quality) <==> raw == "quality"@,
        quality_named(raw) == Some(QualityPreset::Size) <==> raw == "size"@,
{
    reveal_strlit("fast");
    reveal_strlit("balanced");
    reveal_strlit("quality");
    reveal_strlit("size");
    assert("fast"@[0] != "size"@[0]);
    assert("fast"@.len() == 4 && "balanced"@.len() == 8 && "quality"@.len() == 7);
}

/// Each backend name leads to the backend that settings call by that name, on
/// every system. `auto` is AMF on Windows and NVENC elsewhere.
pub proof fn lemma_backend_names_select_their_backend(raw: Seq<char>, windows: bool)
    ensures
        hw_named(raw) matches Some(choice) ==> (if raw == "auto"@ {
            choice.backend(true) == HardwareAcceleration::Amf && choice.backend(false)
                == HardwareAcceleration::Nvenc
        } else {
            choice.backend(windows).config_name() == raw
        }),
        hw_named(raw) is Some <==> raw == "auto"@ || raw == "none"@ || raw == "nvenc"@ || raw
            == "vaapi"@ || raw == "videotoolbox"@ || raw == "qsv"@ || raw == "amf"@,
        raw == "none"@ ==> hw_named(raw)->0.backend(windows) == HardwareAcceleration::Software,
        raw == "nvenc"@ ==> hw_named(raw)->0.backend(windows) == HardwareAcceleration::Nvenc,
        raw == "vaapi"@ ==> hw_named(raw)->0.backend(windows) == HardwareAcceleration::Vaapi,
        raw == "videotoolbox"@ ==> hw_named(raw)->0.backend(windows)
            == HardwareAcceleration::VideoToolbox,
        raw == "qsv"@ ==> hw_named(raw)->0.backend(windows) == HardwareAcceleration::Qsv,
        raw == "amf"@ ==> hw_named(raw)->0.backend(windows) == HardwareAcceleration::Amf,
{
    reveal_strlit("auto");
    reveal_strlit("none");
    reveal_strlit("nvenc");
    reveal_strlit("vaapi");
    reveal_strlit("videotoolbox");
    reveal_strlit("qsv");
    reveal_strlit("amf");
    assert("auto"@[0] != "none"@[0]);
    assert("nvenc"@[0] != "vaapi"@[0]);
    assert("qsv"@[0] != "amf"@[0]);
    assert("auto"@.len() == 4 && "none"@.len() == 4 && "nvenc"@.len() == 5);
    assert("vaapi"@.len() == 5 && "videotoolbox"@.len() == 12 && "qsv"@.len() == 3);
    assert("amf"@.len() == 3);
}

// ---------------------------------------------------------------------------
// What options change
// ---------------------------------------------------------------------------
/// An option with a value changes its own setting to that value, and none
/// other; the option and its value are then both read.
pub proof fn lemma_options_change_their_own_setting(values: Seq<Seq<char>>, i: int, a: ArgsModel)
    requires
        0 <= i,
        i + 1 < values.len(),
    ensures
        ({
            let arg = values[i];
            let value = values[i + 1];
            let becomes = |b: ArgsModel| option_at(values, i, a) == (OptionModel::Go {
                next: i + 2,
                args: b,
            });
            &&& arg == "--input"@ ==> becomes(ArgsModel { input_file: Some(value), ..a })
            &&& arg == "--output"@ || arg == "-o"@ ==> becomes(ArgsModel { output_dir: value, ..a })
            &&& arg == "--codec"@ && codec_named(value) is Some ==> becomes(
                ArgsModel { codec: codec_named(value)->0, ..a },
            )
            &&& arg == "--quality"@ && quality_named(value) is Some ==> becomes(
                ArgsModel { quality: quality_named(value)->0, ..a },
            )
            &&& arg == "--hw"@ && hw_named(value) is Some ==> becomes(
                ArgsModel { hw: hw_named(value)->0, ..a },
            )
            &&& arg == "--codec"@ && codec_named(value) is None ==> option_at(values, i, a) is Stop
            &&& arg == "--quality"@ && quality_named(value) is None ==> option_at(values, i, a)
                is Stop
            &&& arg == "--hw"@ && hw_named(value) is None ==> option_at(values, i, a) is Stop
        }),
{
    reveal_strlit("-h");
    reveal_strlit("--help");
    reveal_strlit("--input");
    reveal_strlit("-o");
    reveal_strlit("--output");
    reveal_strlit("--codec");
    reveal_strlit("--quality");
    reveal_strlit("--crf");
    reveal_strlit("--max-size");
    reveal_strlit("--hw");
    reveal_strlit("-j");
    reveal_strlit("--concurrency");
    reveal_strlit("--discord-cap");
    reveal_strlit("-");
    assert("-h"@.len() == 2);
    assert("--help"@.len() == 6);
    assert("--input"@.len() == 7);
    assert("-o"@.len() == 2);
    assert("--output"@.len() == 8);
    assert("--codec"@.len() == 7);
    assert("--quality"@.len() == 9);
    assert("--crf"@.len() == 5);
    assert("--max-size"@.len() == 10);
    assert("--hw"@.len() == 4);
    assert("-j"@.len() == 2);
    assert("--concurrency"@.len() == 13);
    assert("--discord-cap"@.len() == 13);
    assert("-"@.len() == 1);
    assert("-h"@[1] != "-o"@[1]);
    assert("-h"@[1] != "-j"@[1]);
    assert("--input"@[2] != "--codec"@[2]);
    assert("-o"@[1] != "-j"@[1]);
    assert("--concurrency"@[2] != "--discord-cap"@[2]);
}

/// Numbers are taken as they are written, within their bounds.
pub proof fn lemma_number_options_take_their_number(
    values: Seq<Seq<char>>,
    i: int,
    a: ArgsModel,
    n: nat,
)
    requires
        0 <= i,
        i + 1 < values.len(),
        values[i + 1] == decimal(n),
    ensures
        ({
            let arg = values[i];
            let step = option_at(values, i, a);
            &&& arg == "--crf"@ && n <= 255 ==> step == (OptionModel::Go {
                next: i + 2,
                args: ArgsModel { crf: Some(n as u8), ..a },
            })
            &&& arg == "--crf"@ && n > 255 ==> step is Stop
            &&& (arg == "-j"@ || arg == "--concurrency"@) && 1 <= n <= u32::MAX ==> step == (
            OptionModel::Go { next: i + 2, args: ArgsModel { concurrency: n as u32, ..a } })
            &&& (arg == "-j"@ || arg == "--concurrency"@) && (n == 0 || n > u32::MAX) ==> step
                is Stop
        }),
{
    reveal_strlit("-h");
    reveal_strlit("--help");
    reveal_strlit("--input");
    reveal_strlit("-o");
    reveal_strlit("--output");
    reveal_strlit("--codec");
    reveal_strlit("--quality");
    reveal_strlit("--crf");
    reveal_strlit("--max-size");
    reveal_strlit("--hw");
    reveal_strlit("-j");
    reveal_strlit("--concurrency");
    reveal_strlit("--discord-cap");
    reveal_strlit("-");
    assert("-h"@.len() == 2);
    assert("--help"@.len() == 6);
    assert("--input"@.len() == 7);
    assert("-o"@.len() == 2);
    assert("--output"@.len() == 8);
    assert("--codec"@.len() == 7);
    assert("--quality"@.len() == 9);
    assert("--crf"@.len() == 5);
    assert("--max-size"@.len() == 10);
    assert("--hw"@.len() == 4);
    assert("-j"@.len() == 2);
    assert("--concurrency"@.len() == 13);
    assert("--discord-cap"@.len() == 13);
    assert("-"@.len() == 1);
    assert("-h"@[1] != "-o"@[1]);
    assert("-h"@[1] != "-j"@[1]);
    assert("--input"@[2] != "--codec"@[2]);
    assert("-o"@[1] != "-j"@[1]);
    assert("--concurrency"@[2] != "--discord-cap"@[2]);
    lemma_decimal_value(n);
    lemma_decimal_roundtrip(n, n);
    assert(is_digit(decimal(n)[0]));
}

/// A switch and a link stand alone; help ends the reading, and so does an option
/// without its value and one that is not known.
pub proof fn lemma_switches_and_links_stand_alone(values: Seq<Seq<char>>, i: int, a: ArgsModel)
    requires
        0 <= i < values.len(),
    ensures
        ({
            let arg = values[i];
            let step = option_at(values, i, a);
            &&& arg == "--discord-cap"@ ==> step == (OptionModel::Go {
                next: i + 1,
                args: ArgsModel { discord_cap: true, ..a },
            })
            &&& arg.len() == 0 || arg[0] != '-' ==> step == (OptionModel::Go {
                next: i + 1,
                args: ArgsModel { urls: a.urls.push(arg), ..a },
            })
            &&& arg == "-h"@ || arg == "--help"@ ==> step == (OptionModel::Stop {
                result: ParseModel::Help,
            })
            &&& i + 1 == values.len() && takes_plain_value(arg) ==> (
            step matches OptionModel::Stop { result } && result is Failed)
            &&& i + 1 == values.len() && arg == "--max-size"@ ==> (
            step matches OptionModel::Stop { result } && result is Failed)
        }),
{
    reveal_strlit("-h");
    reveal_strlit("--help");
    reveal_strlit("--input");
    reveal_strlit("-o");
    reveal_strlit("--output");
    reveal_strlit("--codec");
    reveal_strlit("--quality");
    reveal_strlit("--crf");
    reveal_strlit("--max-size");
    reveal_strlit("--hw");
    reveal_strlit("-j");
    reveal_strlit("--concurrency");
    reveal_strlit("--discord-cap");
    reveal_strlit("-");
    assert("-h"@.len() == 2);
    assert("--help"@.len() == 6);
    assert("--input"@.len() == 7);
    assert("-o"@.len() == 2);
    assert("--output"@.len() == 8);
    assert("--codec"@.len() == 7);
    assert("--quality"@.len() == 9);
    assert("--crf"@.len() == 5);
    assert("--max-size"@.len() == 10);
    assert("--hw"@.len() == 4);
    assert("-j"@.len() == 2);
    assert("--concurrency"@.len() == 13);
    assert("--discord-cap"@.len() == 13);
    assert("-"@.len() == 1);
    assert("-h"@[1] != "-o"@[1]);
    assert("-h"@[1] != "-j"@[1]);
    assert("--input"@[2] != "--codec"@[2]);
    assert("-o"@[1] != "-j"@[1]);
    assert("--concurrency"@[2] != "--discord-cap"@[2]);
    let arg = values[i];
    if starts_with(arg, "-"@) {
        assert(arg.take(1)[0] == "-"@[0]);
    }
    if arg.len() == 0 || arg[0] != '-' {
        assert("-h"@[0] == '-');
        assert("--help"@[0] == '-');
        assert("--input"@[0] == '-');
        assert("-o"@[0] == '-');
        assert("--output"@[0] == '-');
        assert("--codec"@[0] == '-');
        assert("--quality"@[0] == '-');
        assert("--crf"@[0] == '-');
        assert("--max-size"@[0] == '-');
        assert("--hw"@[0] == '-');
        assert("-j"@[0] == '-');
        assert("--concurrency"@[0] == '-');
        assert("--discord-cap"@[0] == '-');
        assert("-"@[0] == '-');
    }
}

/// Plain links are all taken, in their order, and change nothing else.
pub proof fn lemma_links_are_taken_in_order(values: Seq<Seq<char>>, i: int, a: ArgsModel)
    requires
        0 <= i <= values.len(),
        forall|k: int|
            i <= k < values.len() ==> (#[trigger] values[k]).len() == 0 || values[k][0] != '-',
    ensures
        options_from(values, i, a) == (ParseModel::Finished {
            args: ArgsModel { urls: a.urls + values.skip(i), ..a },
        }),
    decreases values.len() - i,
{
    if i < values.len() {
        assert(values[i].len() == 0 || values[i][0] != '-');
        lemma_switches_and_links_stand_alone(values, i, a);
        let b = ArgsModel { urls: a.urls.push(values[i]), ..a };
        lemma_links_are_taken_in_order(values, i + 1, b);
        assert(b.urls + values.skip(i + 1) =~= a.urls + values.skip(i));
    } else {
        assert(a.urls + values.skip(i) =~= a.urls);
    }
}

/// A size is its number times its unit: of bytes, or of 1024 bytes once, twice
/// or three times; the unit may be written in either case.
pub proof fn lemma_sizes_are_number_times_unit(n: nat, unit: Seq<char>)
    requires
        lower(unit) == ""@ || lower(unit) == "b"@ || lower(unit) == "kb"@ || lower(unit) == "mb"@
            || lower(unit) == "gb"@,
    ensures
        size_digits(decimal(n) + unit) == decimal(n),
        size_multiplier(decimal(n) + unit) == (if lower(unit) == "kb"@ {
            1024nat
        } else if lower(unit) == "mb"@ {
            1_048_576nat
        } else if lower(unit) == "gb"@ {
            1_073_741_824nat
        } else {
            1nat
        }),
        n > 0 && n * size_multiplier(decimal(n) + unit) <= u64::MAX ==> whole_bytes(
            n,
            size_multiplier(decimal(n) + unit),
        ) == n * size_multiplier(decimal(n) + unit),
{
    reveal_strlit("");
    reveal_strlit("b");
    reveal_strlit("kb");
    reveal_strlit("mb");
    reveal_strlit("gb");
    assert(""@.len() == 0);
    assert("b"@.len() == 1);
    assert("kb"@.len() == 2);
    assert("mb"@.len() == 2);
    assert("gb"@.len() == 2);
    assert("kb"@[0] != "mb"@[0]);
    assert("kb"@[0] != "gb"@[0]);
    assert("mb"@[0] != "gb"@[0]);
    lemma_decimal_value(n);
    let d = decimal(n);
    let raw = d + unit;
    let u = lower(unit);
    assert(u.len() == unit.len());
    assert(is_digit(d[0]) && is_digit(d[d.len() - 1]));
    assert(raw[0] == d[0]);
    if unit.len() > 0 {
        assert(u.last() == 'b');
        assert(u[unit.len() - 1] == lower_char(unit[unit.len() - 1]));
        assert(raw.last() == unit.last());
    } else {
        assert(raw.last() == d.last());
    }
    assert(trim(raw) == raw);
    assert forall|k: int| 0 <= k < d.len() implies lower(raw)[k] == d[k] by {
        assert(is_digit(d[k]));
    }
    let low = lower(raw);
    assert(low =~= d + u);
    let m = low.len() as int;
    assert(low.skip(m - u.len()) =~= u);
    if m >= 2 {
        let t = low.skip(m - 2);
        assert(t.len() == 2);
        if u.len() == 2 {
            assert(t =~= u);
        } else if u.len() == 1 {
            assert(t[0] == d[d.len() - 1]);
            assert("gb"@[0] == 'g' && "mb"@[0] == 'm' && "kb"@[0] == 'k');
        } else {
            assert(t[1] == d[d.len() - 1]);
            assert("gb"@[1] == 'b' && "mb"@[1] == 'b' && "kb"@[1] == 'b');
        }
    }
    if u.len() == 0 {
        assert(low.skip(m - 1)[0] == d[d.len() - 1]);
        assert("b"@[0] == 'b');
    }
    assert(size_unit(low).1 == u.len());
    assert(low.take(m - size_unit(low).1) =~= d);
    assert(trim(d) == d);
}

/// A result is what was read: its arguments, or its message.
pub proof fn lemma_results_are_what_was_read(r: ParseResult, m: ParseModel)
    requires
        r.is(m),
    ensures
        r is Finished <==> m is Finished,
        r is Failed <==> m is Failed,
        r is Help <==> m is Help,
        r matches ParseResult::Finished { args } ==> m == (ParseModel::Finished { args: args@ }),
        r matches ParseResult::Failed { message } ==> m == (ParseModel::Failed {
            message: message@,
        }),
        r matches ParseResult::Measure { args, next, size } ==> (m matches ParseModel::Measure {
            args: a,
            next: n,
            raw,
        } && a == args@ && n == next && size.raw@ == trim(raw) && size.digits@ == size_digits(raw)
            && size.multiplier == size_multiplier(raw)),
{
}

/// Without options a file is encoded on the device at hand at the middle
/// quality, one at a time, without a limit on its size.
pub proof fn lemma_nothing_is_asked_for_by_default(dir: Seq<char>)
    ensures
        options_from(Seq::empty(), 0, default_model(dir)) == (ParseModel::Finished {
            args: default_model(dir),
        }),
        default_model(dir).urls.len() == 0 && default_model(dir).input_file is None,
        default_model(dir).output_dir == dir,
        codec_named("auto"@) == Some(default_model(dir).codec),
        quality_named("balanced"@) == Some(default_model(dir).quality),
        hw_named("auto"@) == Some(default_model(dir).hw),
        default_model(dir).crf is None && default_model(dir).max_size_bytes is None,
        default_model(dir).concurrency == 1,
        !default_model(dir).discord_cap,
{
    reveal_strlit("fast");
    reveal_strlit("balanced");
    assert("fast"@.len() == 4 && "balanced"@.len() == 8);
}

/// A value that is not known is told with its option, its own text and what is
/// expected.
pub proof fn lemma_unknown_values_are_told(values: Seq<Seq<char>>, i: int, a: ArgsModel)
    requires
        0 <= i,
        i + 1 < values.len(),
    ensures
        ({
            let value = values[i + 1];
            let fails = |message: Seq<char>| option_at(values, i, a) == (OptionModel::Stop {
                result: ParseModel::Failed { message },
            });
            &&& values[i] == "--codec"@ && codec_named(value) is None ==> fails(
                "unknown --codec value: "@ + value + " (expected auto|av1|hevc|h264|copy)"@,
            )
            &&& values[i] == "--quality"@ && quality_named(value) is None ==> fails(
                "unknown --quality value: "@ + value + " (expected fast|balanced|quality|size)"@,
            )
            &&& values[i] == "--hw"@ && hw_named(value) is None ==> fails(
                "unknown --hw value: "@ + value
                    + " (expected auto|none|nvenc|vaapi|videotoolbox|qsv|amf)"@,
            )
        }),
{
    reveal_strlit("-h");
    reveal_strlit("--help");
    reveal_strlit("--input");
    reveal_strlit("-o");
    reveal_strlit("--output");
    reveal_strlit("--codec");
    reveal_strlit("--quality");
    reveal_strlit("--crf");
    reveal_strlit("--max-size");
    reveal_strlit("--hw");
    assert("-h"@.len() == 2);
    assert("--help"@.len() == 6);
    assert("--input"@.len() == 7);
    assert("-o"@.len() == 2);
    assert("--output"@.len() == 8);
    assert("--codec"@.len() == 7);
    assert("--quality"@.len() == 9);
    assert("--crf"@.len() == 5);
    assert("--max-size"@.len() == 10);
    assert("--hw"@.len() == 4);
    assert("-h"@[1] != "-o"@[1]);
    assert("--input"@[2] != "--codec"@[2]);
}

} // verus!
