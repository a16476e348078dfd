//! Settings of the media engine and their validation.
//!
//! Once [`EngineSettings::validate`] has passed, every limit is in range:
//! timeouts are nonzero and bounded, upload caps stay within the service's
//! hard limit, and ratios are usable.

use vstd::prelude::*;
use vstd::string::StringExecFns;

verus! {

/// User agent of outgoing requests.
pub const USER_AGENT: &'static str = "Azalea (https://github.com/yehezkieldio/azalea)";

/// A floating-point setting, held by the bits of its 64-bit IEEE 754 form.
///
/// Positive finite values are ordered like their bits, which is all that the
/// rules need.
#[derive(Debug, Clone, Copy, PartialEq, Eq, Structural)]
pub struct FloatBits {
    pub bits: u64,
}

impl FloatBits {
    /// Finite and greater than zero: the sign is clear, the value is not zero
    /// and the exponent is not the one of infinities.
    pub open spec fn positive_finite(self) -> bool {
        0 < self.bits < 0x7ff0_0000_0000_0000
    }

    /// Greater than zero and at most one.
    pub open spec fn in_unit(self) -> bool {
        0 < self.bits <= 0x3ff0_0000_0000_0000
    }

    pub fn from_bits(bits: u64) -> (r: Self)
        ensures
            r.bits == bits,
    {
        FloatBits { bits }
    }

    pub fn is_positive_finite(self) -> (r: bool)
        ensures
            r == self.positive_finite(),
    {
        0 < self.bits && self.bits < 0x7ff0_0000_0000_0000
    }

    pub fn is_in_unit(self) -> (r: bool)
        ensures
            r == self.in_unit(),
    {
        0 < self.bits && self.bits <= 0x3ff0_0000_0000_0000
    }
}

/// Quality preset of video processing.
#[derive(Debug, Clone, Copy, PartialEq, Eq, Structural)]
pub enum QualityPreset {
    /// Speed before quality.
    Fast,
    /// Moderate quality and time.
    Balanced,
    /// Fidelity before time.
    Quality,
    /// Smallest files.
    Size,
}

impl Default for QualityPreset {
    fn default() -> (r: Self)
        ensures
            r == QualityPreset::Balanced,
    {
        QualityPreset::Balanced
    }
}

impl QualityPreset {
    /// Constant rate factor; lower is better and larger.
    pub open spec fn crf_value(self) -> u8 {
        match self {
            QualityPreset::Fast => 28,
            QualityPreset::Balanced => 23,
            QualityPreset::Quality => 18,
            QualityPreset::Size => 32,
        }
    }

    pub open spec fn preset_name(self) -> Seq<char> {
        match self {
            QualityPreset::Fast => "ultrafast"@,
            QualityPreset::Balanced => "superfast"@,
            QualityPreset::Quality => "fast"@,
            QualityPreset::Size => "veryfast"@,
        }
    }

    pub fn crf(self) -> (r: u8)
        ensures
            r == self.crf_value(),
    {
        match self {
            QualityPreset::Fast => 28,
            QualityPreset::Balanced => 23,
            QualityPreset::Quality => 18,
            QualityPreset::Size => 32,
        }
    }

    /// Encoder speed preset.
    pub fn ffmpeg_preset(self) -> (r: &'static str)
        ensures
            r@ == self.preset_name(),
    {
        match self {
            QualityPreset::Fast => "ultrafast",
            QualityPreset::Balanced => "superfast",
            QualityPreset::Quality => "fast",
            QualityPreset::Size => "veryfast",
        }
    }
}

/// Encoder backend.
#[derive(Debug, Clone, Copy, PartialEq, Eq, Structural)]
pub enum HardwareAcceleration {
    /// Encoding on the CPU.
    Software,
    /// NVIDIA.
    Nvenc,
    /// VA-API on Linux.
    Vaapi,
    /// Apple VideoToolbox.
    VideoToolbox,
    /// Intel Quick Sync.
    Qsv,
    /// AMD AMF.
    Amf,
}

impl Default for HardwareAcceleration {
    fn default() -> (r: Self)
        ensures
            r == HardwareAcceleration::Software,
    {
        HardwareAcceleration::Software
    }
}

impl HardwareAcceleration {
    pub open spec fn encoder_name(self) -> Seq<char> {
        match self {
            HardwareAcceleration::Software => "libx264"@,
            HardwareAcceleration::Nvenc => "h264_nvenc"@,
            HardwareAcceleration::Vaapi => "h264_vaapi"@,
            HardwareAcceleration::VideoToolbox => "h264_videotoolbox"@,
            HardwareAcceleration::Qsv => "h264_qsv"@,
            HardwareAcceleration::Amf => "h264_amf"@,
        }
    }

    /// H.264 encoder of the backend.
    pub fn encoder(self) -> (r: &'static str)
        ensures
            r@ == self.encoder_name(),
    {
        match self {
            HardwareAcceleration::Software => "libx264",
            HardwareAcceleration::Nvenc => "h264_nvenc",
            HardwareAcceleration::Vaapi => "h264_vaapi",
            HardwareAcceleration::VideoToolbox => "h264_videotoolbox",
            HardwareAcceleration::Qsv => "h264_qsv",
            HardwareAcceleration::Amf => "h264_amf",
        }
    }

    pub open spec fn config_name(self) -> Seq<char> {
        match self {
            HardwareAcceleration::Software => "none"@,
            HardwareAcceleration::Nvenc => "nvenc"@,
            HardwareAcceleration::Vaapi => "vaapi"@,
            HardwareAcceleration::VideoToolbox => "videotoolbox"@,
            HardwareAcceleration::Qsv => "qsv"@,
            HardwareAcceleration::Amf => "amf"@,
        }
    }

    /// The name of the backend in settings and reports.
    pub fn as_str(self) -> (r: &'static str)
        ensures
            r@ == self.config_name(),
    {
        match self {
            HardwareAcceleration::Software => "none",
            HardwareAcceleration::Nvenc => "nvenc",
            HardwareAcceleration::Vaapi => "vaapi",
            HardwareAcceleration::VideoToolbox => "videotoolbox",
            HardwareAcceleration::Qsv => "qsv",
            HardwareAcceleration::Amf => "amf",
        }
    }

    /// Whether a device does the encoding.
    pub fn is_hardware(self) -> (r: bool)
        ensures
            r == (self != HardwareAcceleration::Software),
    {
        match self {
            HardwareAcceleration::Software => false,
            _ => true,
        }
    }
}

/// Codec of a locally kept video.
#[derive(Debug, Clone, Copy, PartialEq, Eq, Structural)]
pub enum TargetVideoCodec {
    H264,
    Hevc,
    Av1,
}

/// How many tasks of each stage run at once.
#[derive(Debug, Clone, Copy, PartialEq, Eq, Structural)]
pub struct ConcurrencySettings {
    pub download: u32,
    pub upload: u32,
    pub transcode: u32,
    pub ytdlp: u32,
    pub pipeline: u32,
}

impl ConcurrencySettings {
    /// The values used where nothing is configured.
    pub open spec fn is_default(self) -> bool {
        self == (ConcurrencySettings {
            download: 4,
            upload: 2,
            transcode: 1,
            ytdlp: 1,
            pipeline: 8,
        })
    }
}

impl Default for ConcurrencySettings {
    fn default() -> (r: Self)
        ensures
            r.is_default(),
    {
        ConcurrencySettings { download: 4, upload: 2, transcode: 1, ytdlp: 1, pipeline: 8 }
    }
}

/// HTTP client settings.
#[derive(Debug, Clone, Copy, PartialEq, Eq, Structural)]
pub struct HttpSettings {
    pub pool_max_idle_per_host: usize,
    pub pool_idle_timeout_secs: u64,
    pub connect_timeout_secs: u64,
    pub timeout_secs: u64,
}

impl HttpSettings {
    /// The values used where nothing is configured.
    pub open spec fn is_default(self) -> bool {
        self == (HttpSettings {
            pool_max_idle_per_host: 4,
            pool_idle_timeout_secs: 90,
            connect_timeout_secs: 10,
            timeout_secs: 60,
        })
    }
}

impl Default for HttpSettings {
    fn default() -> (r: Self)
        ensures
            r.is_default(),
    {
        HttpSettings {
            pool_max_idle_per_host: 4,
            pool_idle_timeout_secs: 90,
            connect_timeout_secs: 10,
            timeout_secs: 60,
        }
    }
}

/// Paths and cache sizes.
#[derive(Debug)]
pub struct StorageSettings {
    pub temp_dir: String,
    pub dedup_ttl_hours: u64,
    pub dedup_cache_size: usize,
    pub dedup_persistent: bool,
    pub dedup_db_path: String,
    pub dedup_flush_interval_secs: u64,
    pub metrics_db_path: String,
    pub metrics_enabled: bool,
    pub resolver_cache_ttl_secs: u64,
    pub resolver_cache_size: usize,
    pub resolver_negative_ttl_secs: u64,
}

impl StorageSettings {
    /// The values used where nothing is configured.
    pub open spec fn is_default(self) -> bool {
        &&& self.temp_dir@ == "/tmp/azalea"@
        &&& self.dedup_ttl_hours == 24
        &&& self.dedup_cache_size == 1000
        &&& self.dedup_persistent
        &&& self.dedup_db_path@ == "azalea-dedup.redb"@
        &&& self.dedup_flush_interval_secs == 60
        &&& self.metrics_db_path@ == "azalea-metrics.redb"@
        &&& self.metrics_enabled
        &&& self.resolver_cache_ttl_secs == 300
        &&& self.resolver_cache_size == 1000
        &&& self.resolver_negative_ttl_secs == 60
    }
}

impl Default for StorageSettings {
    fn default() -> (r: Self)
        ensures
            r.is_default(),
    {
        StorageSettings {
            temp_dir: "/tmp/azalea".to_owned(),
            dedup_ttl_hours: 24,
            dedup_cache_size: 1000,
            dedup_persistent: true,
            dedup_db_path: "azalea-dedup.redb".to_owned(),
            dedup_flush_interval_secs: 60,
            metrics_db_path: "azalea-metrics.redb".to_owned(),
            metrics_enabled: true,
            resolver_cache_ttl_secs: 300,
            resolver_cache_size: 1000,
            resolver_negative_ttl_secs: 60,
        }
    }
}

/// Transcoding settings.
#[derive(Debug)]
pub struct TranscodeSettings {
    pub quality_preset: QualityPreset,
    pub hardware_acceleration: HardwareAcceleration,
    pub ffmpeg_threads: u32,
    pub vaapi_device: String,
    pub max_upload_bytes: u64,
    pub container_overhead_ratio: FloatBits,
    pub vbr_safety_margin: FloatBits,
    pub transcode_target_ratio: FloatBits,
    pub split_target_ratio: FloatBits,
    pub audio_vbr_padding: FloatBits,
    pub min_bitrate_kbps: u32,
    pub max_single_video_duration_secs: u64,
    pub ffprobe_timeout_secs: u64,
    pub ffmpeg_timeout_secs: u64,
}

impl TranscodeSettings {
    /// The values used where nothing is configured.
    pub open spec fn is_default(self) -> bool {
        &&& self.quality_preset == QualityPreset::Fast
        &&& self.hardware_acceleration == HardwareAcceleration::Software
        &&& self.ffmpeg_threads == 0
        &&& self.vaapi_device@ == "/dev/dri/renderD128"@
        &&& self.max_upload_bytes == 8 * 1024 * 1024
        &&& self.container_overhead_ratio.bits == 0x3f9eb851eb851eb8
        &&& self.vbr_safety_margin.bits == 0x3fa999999999999a
        &&& self.transcode_target_ratio.bits == 0x3feb333333333333
        &&& self.split_target_ratio.bits == 0x3fe999999999999a
        &&& self.audio_vbr_padding.bits == 0x3ff199999999999a
        &&& self.min_bitrate_kbps == 400
        &&& self.max_single_video_duration_secs == 120
        &&& self.ffprobe_timeout_secs == 30
        &&& self.ffmpeg_timeout_secs == 600
    }
}

impl Default for TranscodeSettings {
    fn default() -> (r: Self)
        ensures
            r.is_default(),
    {
        TranscodeSettings {
            quality_preset: QualityPreset::Fast,
            hardware_acceleration: HardwareAcceleration::Software,
            ffmpeg_threads: 0,
            vaapi_device: "/dev/dri/renderD128".to_owned(),
            max_upload_bytes: 8 * 1024 * 1024,
            container_overhead_ratio: FloatBits { bits: 0x3f9eb851eb851eb8 },
            vbr_safety_margin: FloatBits { bits: 0x3fa999999999999a },
            transcode_target_ratio: FloatBits { bits: 0x3feb333333333333 },
            split_target_ratio: FloatBits { bits: 0x3fe999999999999a },
            audio_vbr_padding: FloatBits { bits: 0x3ff199999999999a },
            min_bitrate_kbps: 400,
            max_single_video_duration_secs: 120,
            ffprobe_timeout_secs: 30,
            ffmpeg_timeout_secs: 600,
        }
    }
}

/// Threads of one encode: what is configured; else two on up to four
/// processors, and an even share, at least two, on more.
pub open spec fn thread_share(configured: u32, cpus: u32, concurrency: u32) -> u32 {
    if configured > 0 {
        configured
    } else if cpus <= 4 {
        2
    } else {
        let share = if concurrency == 0 {
            cpus
        } else {
            cpus / concurrency
        };
        if share < 2 {
            2
        } else {
            share
        }
    }
}

impl TranscodeSettings {
    /// Threads per encode, so that concurrent encodes do not crowd the
    /// `cpus` processors.
    pub fn effective_ffmpeg_threads(&self, transcode_concurrency: u32, cpus: u32) -> (r: u32)
        ensures
            r == thread_share(self.ffmpeg_threads, cpus, transcode_concurrency),
    {
        if self.ffmpeg_threads > 0 {
            return self.ffmpeg_threads;
        }
        if cpus <= 4 {
            return 2;
        }
        let share: u32 = if transcode_concurrency == 0 {
            cpus
        } else {
            cpus / transcode_concurrency
        };
        if share < 2 {
            2
        } else {
            share
        }
    }

    /// A copy of the settings.
    pub fn duplicate(&self) -> (r: Self)
        ensures
            r == *self,
    {
        TranscodeSettings {
            quality_preset: self.quality_preset,
            hardware_acceleration: self.hardware_acceleration,
            ffmpeg_threads: self.ffmpeg_threads,
            vaapi_device: self.vaapi_device.clone(),
            max_upload_bytes: self.max_upload_bytes,
            container_overhead_ratio: self.container_overhead_ratio,
            vbr_safety_margin: self.vbr_safety_margin,
            transcode_target_ratio: self.transcode_target_ratio,
            split_target_ratio: self.split_target_ratio,
            audio_vbr_padding: self.audio_vbr_padding,
            min_bitrate_kbps: self.min_bitrate_kbps,
            max_single_video_duration_secs: self.max_single_video_duration_secs,
            ffprobe_timeout_secs: self.ffprobe_timeout_secs,
            ffmpeg_timeout_secs: self.ffmpeg_timeout_secs,
        }
    }
}

/// Timeouts, size limits and rate limits of the pipeline.
#[derive(Debug, Clone, Copy, PartialEq, Eq, Structural)]
pub struct PipelineSettings {
    pub queue_backpressure_timeout_ms: u64,
    pub download_timeout_secs: u64,
    pub upload_timeout_secs: u64,
    pub min_disk_space_bytes: u64,
    pub max_download_bytes: u64,
    pub resolver_timeout_secs: u64,
    pub ytdlp_timeout_secs: u64,
    pub user_rate_limit_requests: u32,
    pub user_rate_limit_window_secs: u64,
    pub channel_rate_limit_requests: u32,
    pub channel_rate_limit_window_secs: u64,
    pub parallel_segment_threshold: u32,
    pub download_connections: u32,
    pub download_chunk_bytes: u64,
    pub download_write_buffer_bytes: usize,
    pub upload_ready_buffer_max_bytes: u64,
    pub batch_upload_multiple_media: bool,
    pub attachment_prepare_concurrency: usize,
}

impl PipelineSettings {
    /// The values used where nothing is configured.
    pub open spec fn is_default(self) -> bool {
        self == (PipelineSettings {
            queue_backpressure_timeout_ms: 1_000,
            download_timeout_secs: 60,
            upload_timeout_secs: 120,
            min_disk_space_bytes: 524_288_000,
            max_download_bytes: 524_288_000,
            resolver_timeout_secs: 10,
            ytdlp_timeout_secs: 30,
            user_rate_limit_requests: 10,
            user_rate_limit_window_secs: 60,
            channel_rate_limit_requests: 20,
            channel_rate_limit_window_secs: 60,
            parallel_segment_threshold: 4,
            download_connections: 4,
            download_chunk_bytes: 4_194_304,
            download_write_buffer_bytes: 262_144,
            upload_ready_buffer_max_bytes: 8_388_608,
            batch_upload_multiple_media: true,
            attachment_prepare_concurrency: 4,
        })
    }
}

impl Default for PipelineSettings {
    fn default() -> (r: Self)
        ensures
            r.is_default(),
    {
        PipelineSettings {
            queue_backpressure_timeout_ms: 1_000,
            download_timeout_secs: 60,
            upload_timeout_secs: 120,
            min_disk_space_bytes: 524_288_000,
            max_download_bytes: 524_288_000,
            resolver_timeout_secs: 10,
            ytdlp_timeout_secs: 30,
            user_rate_limit_requests: 10,
            user_rate_limit_window_secs: 60,
            channel_rate_limit_requests: 20,
            channel_rate_limit_window_secs: 60,
            parallel_segment_threshold: 4,
            download_connections: 4,
            download_chunk_bytes: 4_194_304,
            download_write_buffer_bytes: 262_144,
            upload_ready_buffer_max_bytes: 8_388_608,
            batch_upload_multiple_media: true,
            attachment_prepare_concurrency: 4,
        }
    }
}

/// Paths of the external programs.
#[derive(Debug)]
pub struct BinarySettings {
    pub ffmpeg: String,
    pub ffprobe: String,
    pub ytdlp: String,
}

impl BinarySettings {
    /// The values used where nothing is configured.
    pub open spec fn is_default(self) -> bool {
        &&& self.ffmpeg@ == "ffmpeg"@
        &&& self.ffprobe@ == "ffprobe"@
        &&& self.ytdlp@ == "yt-dlp"@
    }
}

impl Default for BinarySettings {
    fn default() -> (r: Self)
        ensures
            r.is_default(),
    {
        BinarySettings {
            ffmpeg: "ffmpeg".to_owned(),
            ffprobe: "ffprobe".to_owned(),
            ytdlp: "yt-dlp".to_owned(),
        }
    }
}

/// All settings of the engine.
#[derive(Debug)]
pub struct EngineSettings {
    pub concurrency: ConcurrencySettings,
    pub http: HttpSettings,
    pub storage: StorageSettings,
    pub transcode: TranscodeSettings,
    pub pipeline: PipelineSettings,
    pub binaries: BinarySettings,
}

// ---------------------------------------------------------------------------
// Validation
// ---------------------------------------------------------------------------
pub open spec fn first_of(a: Option<Seq<char>>, b: Option<Seq<char>>) -> Option<Seq<char>> {
    match a {
        Some(_) => a,
        None => b,
    }
}

pub open spec fn ratio_problem(name: Seq<char>, value: FloatBits) -> Option<Seq<char>> {
    if value.in_unit() {
        None
    } else {
        Some(name + " must be finite and in (0, 1]"@)
    }
}

pub open spec fn positive_problem(name: Seq<char>, value: FloatBits) -> Option<Seq<char>> {
    if value.positive_finite() {
        None
    } else {
        Some(name + " must be finite and greater than 0"@)
    }
}

pub open spec fn timeout_problem(name: Seq<char>, value: u64) -> Option<Seq<char>> {
    if 1 <= value <= 3600 {
        None
    } else {
        Some(name + " must be between 1 and 3600 seconds"@)
    }
}

fn check_ratio(name: &str, value: FloatBits) -> (r: Option<String>)
    ensures
        r is Some <==> ratio_problem(name@, value) is Some,
        r matches Some(e) ==> ratio_problem(name@, value) == Some(e@),
{
    if value.is_in_unit() {
        None
    } else {
        let mut s = name.to_owned();
        s.append(" must be finite and in (0, 1]");
        Some(s)
    }
}

fn check_positive(name: &str, value: FloatBits) -> (r: Option<String>)
    ensures
        r is Some <==> positive_problem(name@, value) is Some,
        r matches Some(e) ==> positive_problem(name@, value) == Some(e@),
{
    if value.is_positive_finite() {
        None
    } else {
        let mut s = name.to_owned();
        s.append(" must be finite and greater than 0");
        Some(s)
    }
}

fn check_timeout(name: &str, value: u64) -> (r: Option<String>)
    ensures
        r is Some <==> timeout_problem(name@, value) is Some,
        r matches Some(e) ==> timeout_problem(name@, value) == Some(e@),
{
    if 1 <= value && value <= 3600 {
        None
    } else {
        let mut s = name.to_owned();
        s.append(" must be between 1 and 3600 seconds");
        Some(s)
    }
}

impl EngineSettings {
    /// The first rule on counts and sizes that is broken.
    pub open spec fn limits_problem(&self) -> Option<Seq<char>> {
        let c = self.concurrency;
        if c.pipeline == 0 || c.download == 0 || c.upload == 0 || c.transcode == 0 || c.ytdlp == 0 {
            Some("all concurrency values must be at least 1"@)
        } else if self.transcode.max_upload_bytes == 0 {
            Some("transcode.max_upload_bytes must be greater than 0"@)
        } else if self.transcode.max_upload_bytes > 50 * 1024 * 1024 {
            Some("transcode.max_upload_bytes exceeds Discord's 50 MiB limit"@)
        } else if self.transcode.min_bitrate_kbps == 0 || self.transcode.min_bitrate_kbps
            > 100_000 {
            Some("transcode.min_bitrate_kbps must be between 1 and 100000"@)
        } else {
            None
        }
    }

    /// The first rule that is broken, in the order they are checked.
    pub open spec fn problem(&self) -> Option<Seq<char>> {
        first_of(
            self.limits_problem(),
            first_of(
                ratio_problem("transcode.container_overhead_ratio"@, self.transcode.container_overhead_ratio),
                first_of(
                ratio_problem("transcode.vbr_safety_margin"@, self.transcode.vbr_safety_margin),
                first_of(
                ratio_problem("transcode.transcode_target_ratio"@, self.transcode.transcode_target_ratio),
                first_of(
                ratio_problem("transcode.split_target_ratio"@, self.transcode.split_target_ratio),
                first_of(
                positive_problem("transcode.audio_vbr_padding"@, self.transcode.audio_vbr_padding),
                first_of(
                timeout_problem("http.connect_timeout_secs"@, self.http.connect_timeout_secs),
                first_of(
                timeout_problem("http.timeout_secs"@, self.http.timeout_secs),
                first_of(
                timeout_problem("pipeline.download_timeout_secs"@, self.pipeline.download_timeout_secs),
                first_of(
                timeout_problem("pipeline.upload_timeout_secs"@, self.pipeline.upload_timeout_secs),
                first_of(
                timeout_problem("pipeline.resolver_timeout_secs"@, self.pipeline.resolver_timeout_secs),
                first_of(
                timeout_problem("pipeline.ytdlp_timeout_secs"@, self.pipeline.ytdlp_timeout_secs),
                first_of(
                timeout_problem("transcode.ffprobe_timeout_secs"@, self.transcode.ffprobe_timeout_secs),
                timeout_problem("transcode.ffmpeg_timeout_secs"@, self.transcode.ffmpeg_timeout_secs))))))))))))),
        )
    }

    /// Check every limit; the first one that is broken is named.
    pub fn validate(&self) -> (r: Result<(), String>)
        ensures
            r is Ok <==> self.problem() is None,
            r matches Err(e) ==> self.problem() == Some(e@),
    {
        let c = &self.concurrency;
        if c.pipeline == 0 || c.download == 0 || c.upload == 0 || c.transcode == 0 || c.ytdlp == 0 {
            return Err("all concurrency values must be at least 1".to_owned());
        }
        if self.transcode.max_upload_bytes == 0 {
            return Err("transcode.max_upload_bytes must be greater than 0".to_owned());
        }
        if self.transcode.max_upload_bytes > 50 * 1024 * 1024 {
            return Err("transcode.max_upload_bytes exceeds Discord's 50 MiB limit".to_owned());
        }
        if self.transcode.min_bitrate_kbps == 0 || self.transcode.min_bitrate_kbps > 100_000 {
            return Err("transcode.min_bitrate_kbps must be between 1 and 100000".to_owned());
        }
        if let Some(e) = check_ratio("transcode.container_overhead_ratio", self.transcode.container_overhead_ratio) {
            return Err(e);
        }
        if let Some(e) = check_ratio("transcode.vbr_safety_margin", self.transcode.vbr_safety_margin) {
            return Err(e);
        }
        if let Some(e) = check_ratio("transcode.transcode_target_ratio", self.transcode.transcode_target_ratio) {
            return Err(e);
        }
        if let Some(e) = check_ratio("transcode.split_target_ratio", self.transcode.split_target_ratio) {
            return Err(e);
        }
        if let Some(e) = check_positive("transcode.audio_vbr_padding", self.transcode.audio_vbr_padding) {
            return Err(e);
        }
        if let Some(e) = check_timeout("http.connect_timeout_secs", self.http.connect_timeout_secs) {
            return Err(e);
        }
        if let Some(e) = check_timeout("http.timeout_secs", self.http.timeout_secs) {
            return Err(e);
        }
        if let Some(e) = check_timeout("pipeline.download_timeout_secs", self.pipeline.download_timeout_secs) {
            return Err(e);
        }
        if let Some(e) = check_timeout("pipeline.upload_timeout_secs", self.pipeline.upload_timeout_secs) {
            return Err(e);
        }
        if let Some(e) = check_timeout("pipeline.resolver_timeout_secs", self.pipeline.resolver_timeout_secs) {
            return Err(e);
        }
        if let Some(e) = check_timeout("pipeline.ytdlp_timeout_secs", self.pipeline.ytdlp_timeout_secs) {
            return Err(e);
        }
        if let Some(e) = check_timeout("transcode.ffprobe_timeout_secs", self.transcode.ffprobe_timeout_secs) {
            return Err(e);
        }
        if let Some(e) = check_timeout("transcode.ffmpeg_timeout_secs", self.transcode.ffmpeg_timeout_secs) {
            return Err(e);
        }
        Ok(())
    }

    /// Upload timeout in seconds.
    pub fn upload_timeout(&self) -> (r: u64)
        ensures
            r == self.pipeline.upload_timeout_secs,
    {
        self.pipeline.upload_timeout_secs
    }
}

impl Default for EngineSettings {
    /// The default settings pass validation.
    fn default() -> (r: Self)
        ensures
            r.concurrency.is_default(),
            r.http.is_default(),
            r.storage.is_default(),
            r.transcode.is_default(),
            r.pipeline.is_default(),
            r.binaries.is_default(),
            r.problem() is None,
    {
        EngineSettings {
            concurrency: ConcurrencySettings::default(),
            http: HttpSettings::default(),
            storage: StorageSettings::default(),
            transcode: TranscodeSettings::default(),
            pipeline: PipelineSettings::default(),
            binaries: BinarySettings::default(),
        }
    }
}

/// Settings that pass leave every limit in its range.
pub proof fn lemma_valid_settings_are_bounded(s: EngineSettings)
    requires
        s.problem() is None,
    ensures
        s.concurrency.pipeline >= 1 && s.concurrency.download >= 1 && s.concurrency.upload >= 1
            && s.concurrency.transcode >= 1 && s.concurrency.ytdlp >= 1,
        0 < s.transcode.max_upload_bytes <= 50 * 1024 * 1024,
        1 <= s.transcode.min_bitrate_kbps <= 100_000,
        s.transcode.container_overhead_ratio.in_unit(),
        s.transcode.vbr_safety_margin.in_unit(),
        s.transcode.transcode_target_ratio.in_unit(),
        s.transcode.split_target_ratio.in_unit(),
        s.transcode.audio_vbr_padding.positive_finite(),
        1 <= s.http.connect_timeout_secs <= 3600,
        1 <= s.http.timeout_secs <= 3600,
        1 <= s.pipeline.download_timeout_secs <= 3600,
        1 <= s.pipeline.upload_timeout_secs <= 3600,
        1 <= s.pipeline.resolver_timeout_secs <= 3600,
        1 <= s.pipeline.ytdlp_timeout_secs <= 3600,
        1 <= s.transcode.ffprobe_timeout_secs <= 3600,
        1 <= s.transcode.ffmpeg_timeout_secs <= 3600,
{
}

// ---------------------------------------------------------------------------
// What the choices mean
// ---------------------------------------------------------------------------
/// The H.264 encoder of a device is called after the device; software has an
/// encoder of its own. No two backends share a name or an encoder.
pub proof fn lemma_backends_have_their_own_encoder(a: HardwareAcceleration, b: HardwareAcceleration)
    ensures
        a != HardwareAcceleration::Software ==> a.encoder_name() == seq!['h', '2', '6', '4', '_']
            + a.config_name(),
        a.config_name() == b.config_name() <==> a == b,
        a.encoder_name() == b.encoder_name() <==> a == b,
        a == HardwareAcceleration::Nvenc <==> a.config_name() == seq!['n', 'v', 'e', 'n', 'c'],
        a == HardwareAcceleration::Vaapi <==> a.config_name() == seq!['v', 'a', 'a', 'p', 'i'],
        a == HardwareAcceleration::Qsv <==> a.config_name() == seq!['q', 's', 'v'],
        a == HardwareAcceleration::Amf <==> a.config_name() == seq!['a', 'm', 'f'],
        a == HardwareAcceleration::Software <==> a.config_name() == seq!['n', 'o', 'n', 'e'],
        a == HardwareAcceleration::Software <==> a.encoder_name() == seq![
            'l',
            'i',
            'b',
            'x',
            '2',
            '6',
            '4',
        ],
{
    reveal_strlit("none");
    reveal_strlit("nvenc");
    reveal_strlit("vaapi");
    reveal_strlit("videotoolbox");
    reveal_strlit("qsv");
    reveal_strlit("amf");
    reveal_strlit("libx264");
    reveal_strlit("h264_nvenc");
    reveal_strlit("h264_vaapi");
    reveal_strlit("h264_videotoolbox");
    reveal_strlit("h264_qsv");
    reveal_strlit("h264_amf");
    assert("none"@ =~= seq!['n', 'o', 'n', 'e']);
    assert("nvenc"@ =~= seq!['n', 'v', 'e', 'n', 'c']);
    assert("vaapi"@ =~= seq!['v', 'a', 'a', 'p', 'i']);
    assert("qsv"@ =~= seq!['q', 's', 'v']);
    assert("amf"@ =~= seq!['a', 'm', 'f']);
    assert("libx264"@ =~= seq!['l', 'i', 'b', 'x', '2', '6', '4']);
    let h = seq!['h', '2', '6', '4', '_'];
    assert("h264_nvenc"@ =~= h + "nvenc"@);
    assert("h264_vaapi"@ =~= h + "vaapi"@);
    assert("h264_videotoolbox"@ =~= h + "videotoolbox"@);
    assert("h264_qsv"@ =~= h + "qsv"@);
    assert("h264_amf"@ =~= h + "amf"@);
    assert("videotoolbox"@.len() == 12);
    assert("nvenc"@[0] != "vaapi"@[0]);
    assert("qsv"@[0] != "amf"@[0]);
    assert("h264_nvenc"@[5] != "h264_vaapi"@[5]);
    assert("h264_qsv"@[5] != "h264_amf"@[5]);
}

/// How slow an encoder speed is, from the fastest on.
pub open spec fn slowness(speed: Seq<char>) -> int {
    if speed == "ultrafast"@ {
        0
    } else if speed == "superfast"@ {
        1
    } else if speed == "veryfast"@ {
        2
    } else if speed == "faster"@ {
        3
    } else if speed == "fast"@ {
        4
    } else {
        5
    }
}

/// The presets in the order of their picture: quality, balanced, fast, size. In
/// the order of their speed: fast, balanced, size, quality.
pub proof fn lemma_presets_keep_their_order()
    ensures
        QualityPreset::Quality.crf_value() < QualityPreset::Balanced.crf_value(),
        QualityPreset::Balanced.crf_value() < QualityPreset::Fast.crf_value(),
        QualityPreset::Fast.crf_value() < QualityPreset::Size.crf_value(),
        forall|preset: QualityPreset| 0 < #[trigger] preset.crf_value() <= 51,
        slowness(QualityPreset::Fast.preset_name()) < slowness(
            QualityPreset::Balanced.preset_name(),
        ) < slowness(QualityPreset::Size.preset_name()) < slowness(
            QualityPreset::Quality.preset_name(),
        ) < 5,
{
    reveal_strlit("ultrafast");
    reveal_strlit("superfast");
    reveal_strlit("veryfast");
    reveal_strlit("faster");
    reveal_strlit("fast");
    assert("ultrafast"@[0] != "superfast"@[0]);
    assert("ultrafast"@.len() == 9 && "superfast"@.len() == 9 && "veryfast"@.len() == 8);
    assert("faster"@.len() == 6 && "fast"@.len() == 4);
}

/// What is configured counts. Else an encode gets at least two threads, and
/// concurrent encodes together no more than there are processors, but for
/// those two; one thread more each would be too many.
pub proof fn lemma_threads_share_the_processors(configured: u32, cpus: u32, concurrency: u32)
    requires
        concurrency > 0,
    ensures
        configured > 0 ==> thread_share(configured, cpus, concurrency) == configured,
        configured == 0 ==> ({
            let threads = thread_share(0, cpus, concurrency);
            &&& threads >= 2
            &&& threads > 2 ==> threads * concurrency <= cpus
            &&& cpus > 4 ==> (threads + 1) * concurrency > cpus
            &&& cpus <= 4 ==> threads == 2
        }),
{
    if configured == 0 && cpus > 4 {
        let share = cpus / concurrency;
        let threads = thread_share(0, cpus, concurrency);
        assert(share * concurrency <= cpus < (share + 1) * concurrency) by (nonlinear_arith)
            requires
                share == cpus / concurrency,
                concurrency > 0,
        ;
        assert((threads + 1) * concurrency >= (share + 1) * concurrency) by (nonlinear_arith)
            requires
                threads >= share,
                concurrency > 0,
        ;
    }
}

/// Settings within the bounds are accepted.
pub proof fn lemma_bounded_settings_are_valid(s: EngineSettings)
    requires
        s.concurrency.pipeline >= 1 && s.concurrency.download >= 1 && s.concurrency.upload >= 1
            && s.concurrency.transcode >= 1 && s.concurrency.ytdlp >= 1,
        0 < s.transcode.max_upload_bytes <= 52_428_800,
        1 <= s.transcode.min_bitrate_kbps <= 100_000,
        0 < s.transcode.container_overhead_ratio.bits <= 0x3ff0_0000_0000_0000,
        0 < s.transcode.vbr_safety_margin.bits <= 0x3ff0_0000_0000_0000,
        0 < s.transcode.transcode_target_ratio.bits <= 0x3ff0_0000_0000_0000,
        0 < s.transcode.split_target_ratio.bits <= 0x3ff0_0000_0000_0000,
        0 < s.transcode.audio_vbr_padding.bits < 0x7ff0_0000_0000_0000,
        1 <= s.http.connect_timeout_secs <= 3600,
        1 <= s.http.timeout_secs <= 3600,
        1 <= s.pipeline.download_timeout_secs <= 3600,
        1 <= s.pipeline.upload_timeout_secs <= 3600,
        1 <= s.pipeline.resolver_timeout_secs <= 3600,
        1 <= s.pipeline.ytdlp_timeout_secs <= 3600,
        1 <= s.transcode.ffprobe_timeout_secs <= 3600,
        1 <= s.transcode.ffmpeg_timeout_secs <= 3600,
    ensures
        s.problem() is None,
{
}

/// The defaults are accepted: an upload of eight mebibytes fits the buffer, a
/// download fits the free space asked for, and waits grow from asking for a
/// tweet over its download and upload to its encode.
pub proof fn lemma_defaults_are_accepted(s: EngineSettings)
    requires
        s.concurrency.is_default(),
        s.http.is_default(),
        s.storage.is_default(),
        s.transcode.is_default(),
        s.pipeline.is_default(),
    ensures
        s.problem() is None,
        s.transcode.max_upload_bytes == 8_388_608 == s.pipeline.upload_ready_buffer_max_bytes,
        s.pipeline.max_download_bytes == s.pipeline.min_disk_space_bytes == 500 * 1_048_576,
        s.pipeline.download_chunk_bytes == 16 * s.pipeline.download_write_buffer_bytes,
        s.pipeline.resolver_timeout_secs < s.pipeline.ytdlp_timeout_secs
            < s.pipeline.download_timeout_secs < s.pipeline.upload_timeout_secs
            < s.transcode.ffmpeg_timeout_secs,
        s.pipeline.channel_rate_limit_requests == 2 * s.pipeline.user_rate_limit_requests,
        s.concurrency.transcode <= s.concurrency.upload <= s.concurrency.download
            <= s.concurrency.pipeline,
        s.transcode.hardware_acceleration == HardwareAcceleration::Software,
        s.transcode.quality_preset == QualityPreset::Fast,
        s.transcode.split_target_ratio.bits < s.transcode.transcode_target_ratio.bits,
        s.storage.resolver_negative_ttl_secs < s.storage.resolver_cache_ttl_secs,
        s.storage.dedup_ttl_hours == 24,
{
}

/// Of several broken rules the first is told, and the text names its setting.
pub proof fn lemma_first_broken_rule_is_told(s: EngineSettings)
    ensures
        s.limits_problem() is Some ==> s.problem() == s.limits_problem(),
        ({
            let holds = seq![
                0 < s.transcode.container_overhead_ratio.bits <= 0x3ff0_0000_0000_0000,
                0 < s.transcode.vbr_safety_margin.bits <= 0x3ff0_0000_0000_0000,
                0 < s.transcode.transcode_target_ratio.bits <= 0x3ff0_0000_0000_0000,
                0 < s.transcode.split_target_ratio.bits <= 0x3ff0_0000_0000_0000,
                0 < s.transcode.audio_vbr_padding.bits < 0x7ff0_0000_0000_0000,
                1 <= s.http.connect_timeout_secs <= 3600,
                1 <= s.http.timeout_secs <= 3600,
                1 <= s.pipeline.download_timeout_secs <= 3600,
                1 <= s.pipeline.upload_timeout_secs <= 3600,
                1 <= s.pipeline.resolver_timeout_secs <= 3600,
                1 <= s.pipeline.ytdlp_timeout_secs <= 3600,
                1 <= s.transcode.ffprobe_timeout_secs <= 3600,
                1 <= s.transcode.ffmpeg_timeout_secs <= 3600,
            ];
            let first = |i: int|
                s.limits_problem() is None && !holds[i] && (forall|k: int| 0 <= k < i ==> holds[k]);
            &&& first(0) ==> s.problem() == Some(
                "transcode.container_overhead_ratio"@ + " must be finite and in (0, 1]"@,
            )
            &&& first(1) ==> s.problem() == Some(
                "transcode.vbr_safety_margin"@ + " must be finite and in (0, 1]"@,
            )
            &&& first(2) ==> s.problem() == Some(
                "transcode.transcode_target_ratio"@ + " must be finite and in (0, 1]"@,
            )
            &&& first(3) ==> s.problem() == Some(
                "transcode.split_target_ratio"@ + " must be finite and in (0, 1]"@,
            )
            &&& first(4) ==> s.problem() == Some(
                "transcode.audio_vbr_padding"@ + " must be finite and greater than 0"@,
            )
            &&& first(5) ==> s.problem() == Some(
                "http.connect_timeout_secs"@ + " must be between 1 and 3600 seconds"@,
            )
            &&& first(6) ==> s.problem() == Some(
                "http.timeout_secs"@ + " must be between 1 and 3600 seconds"@,
            )
            &&& first(7) ==> s.problem() == Some(
                "pipeline.download_timeout_secs"@ + " must be between 1 and 3600 seconds"@,
            )
            &&& first(8) ==> s.problem() == Some(
                "pipeline.upload_timeout_secs"@ + " must be between 1 and 3600 seconds"@,
            )
            &&& first(9) ==> s.problem() == Some(
                "pipeline.resolver_timeout_secs"@ + " must be between 1 and 3600 seconds"@,
            )
            &&& first(10) ==> s.problem() == Some(
                "pipeline.ytdlp_timeout_secs"@ + " must be between 1 and 3600 seconds"@,
            )
            &&& first(11) ==> s.problem() == Some(
                "transcode.ffprobe_timeout_secs"@ + " must be between 1 and 3600 seconds"@,
            )
            &&& first(12) ==> s.problem() == Some(
                "transcode.ffmpeg_timeout_secs"@ + " must be between 1 and 3600 seconds"@,
            )
        }),
{
    let holds = seq![
        0 < s.transcode.container_overhead_ratio.bits <= 0x3ff0_0000_0000_0000,
        0 < s.transcode.vbr_safety_margin.bits <= 0x3ff0_0000_0000_0000,
        0 < s.transcode.transcode_target_ratio.bits <= 0x3ff0_0000_0000_0000,
        0 < s.transcode.split_target_ratio.bits <= 0x3ff0_0000_0000_0000,
        0 < s.transcode.audio_vbr_padding.bits < 0x7ff0_0000_0000_0000,
        1 <= s.http.connect_timeout_secs <= 3600,
        1 <= s.http.timeout_secs <= 3600,
        1 <= s.pipeline.download_timeout_secs <= 3600,
        1 <= s.pipeline.upload_timeout_secs <= 3600,
        1 <= s.pipeline.resolver_timeout_secs <= 3600,
        1 <= s.pipeline.ytdlp_timeout_secs <= 3600,
        1 <= s.transcode.ffprobe_timeout_secs <= 3600,
        1 <= s.transcode.ffmpeg_timeout_secs <= 3600,
    ];
    assert(holds[0] == (0 < s.transcode.container_overhead_ratio.bits <= 0x3ff0_0000_0000_0000));
    assert(holds[1] == (0 < s.transcode.vbr_safety_margin.bits <= 0x3ff0_0000_0000_0000));
    assert(holds[2] == (0 < s.transcode.transcode_target_ratio.bits <= 0x3ff0_0000_0000_0000));
    assert(holds[3] == (0 < s.transcode.split_target_ratio.bits <= 0x3ff0_0000_0000_0000));
    assert(holds[4] == (0 < s.transcode.audio_vbr_padding.bits < 0x7ff0_0000_0000_0000));
    assert(holds[5] == (1 <= s.http.connect_timeout_secs <= 3600));
    assert(holds[6] == (1 <= s.http.timeout_secs <= 3600));
    assert(holds[7] == (1 <= s.pipeline.download_timeout_secs <= 3600));
    assert(holds[8] == (1 <= s.pipeline.upload_timeout_secs <= 3600));
    assert(holds[9] == (1 <= s.pipeline.resolver_timeout_secs <= 3600));
    assert(holds[10] == (1 <= s.pipeline.ytdlp_timeout_secs <= 3600));
    assert(holds[11] == (1 <= s.transcode.ffprobe_timeout_secs <= 3600));
    assert(holds[12] == (1 <= s.transcode.ffmpeg_timeout_secs <= 3600));
}

/// The presets are even steps of quality apart around the balanced one, and the
/// smallest files go four further.
pub proof fn lemma_presets_are_even_steps_apart()
    ensures
        QualityPreset::Balanced.crf_value() - QualityPreset::Quality.crf_value() == 5,
        QualityPreset::Fast.crf_value() - QualityPreset::Balanced.crf_value() == 5,
        QualityPreset::Size.crf_value() - QualityPreset::Fast.crf_value() == 4,
        QualityPreset::Balanced.crf_value() == 23,
{
}

} // verus!
