//! Settings of the bot, from a file, a dotenv file and the environment.

use crate::bot::ids::ApplicationId;
use crate::config::EngineSettings;
use crate::text::{
    chars_of, decimal, decimal_of, float_text, is_digit, is_float_text, is_upper, is_white,
    lemma_decimal_roundtrip, lemma_decimal_value, lemma_first_part, lines, lines_of, lower,
    lower_str, parse_i64, parse_signed, parse_u64, parse_unsigned, same, slice_chars, split_once,
    starts_with, string_of, strip_prefix, trim, trim_str, upper, upper_char, upper_str, views,
};
use vstd::prelude::*;
use vstd::string::StringExecFns;

verus! {

/// The file that settings are read from.
pub const CONFIG_FILE: &'static str = "azalea.config.toml";

pub const DOTENV_FILE: &'static str = ".env";

/// The secret that the bot signs in with.
pub struct DiscordToken(pub String);

impl DiscordToken {
    pub fn new(value: String) -> (r: Self)
        ensures
            r.0@ == value@,
    {
        DiscordToken(value)
    }

    pub fn as_str(&self) -> (s: &str)
        ensures
            s@ == self.0@,
    {
        self.0.as_str()
    }

    pub fn into_inner(self) -> (s: String)
        ensures
            s@ == self.0@,
    {
        self.0
    }
}

/// Settings that never stand in a file.
pub struct AuthConfig {
    pub discord_token: DiscordToken,
}

/// Threads of the runtime.
#[derive(Debug, Clone, Copy, PartialEq, Eq, Structural)]
pub struct RuntimeConfig {
    pub worker_threads: usize,
    pub max_blocking_threads: usize,
    pub thread_stack_size: usize,
}

impl RuntimeConfig {
    /// The values for a machine with so many processors.
    pub fn for_cpus(cpus: usize) -> (r: Self)
        requires
            cpus * 4 <= usize::MAX,
        ensures
            r == (RuntimeConfig {
                worker_threads: cpus,
                max_blocking_threads: (cpus * 4) as usize,
                thread_stack_size: 2_097_152,
            }),
    {
        RuntimeConfig {
            worker_threads: cpus,
            max_blocking_threads: cpus * 4,
            thread_stack_size: 2 * 1024 * 1024,
        }
    }
}

/// All settings of the bot.
#[derive(Debug)]
pub struct AppConfig {
    pub application_id: ApplicationId,
    pub runtime: RuntimeConfig,
    pub engine: EngineSettings,
}

/// Everything that is loaded at start-up.
pub struct LoadedConfig {
    pub app: AppConfig,
    pub auth: AuthConfig,
}

impl AppConfig {
    /// The values used where nothing is configured; the application id is
    /// still to be set.
    pub fn for_cpus(cpus: usize) -> (r: Self)
        requires
            cpus * 4 <= usize::MAX,
        ensures
            r.application_id.0 == 0,
            r.runtime.worker_threads == cpus,
            r.runtime.max_blocking_threads == cpus * 4,
            r.runtime.thread_stack_size == 2 * 1024 * 1024,
            r.engine.concurrency.is_default(),
            r.engine.http.is_default(),
            r.engine.storage.is_default(),
            r.engine.transcode.is_default(),
            r.engine.pipeline.is_default(),
            r.engine.binaries.is_default(),
            r.engine.problem() is None,
    {
        AppConfig {
            application_id: ApplicationId::new(0),
            runtime: RuntimeConfig::for_cpus(cpus),
            engine: EngineSettings::default(),
        }
    }

    /// The first rule that is broken, in the order they are checked.
    pub open spec fn problem(&self) -> Option<Seq<char>> {
        if self.application_id.0 == 0 {
            Some(
                "application_id must be set (via config, APPLICATION_ID, or AZALEA_APPLICATION_ID)"@,
            )
        } else if self.runtime.worker_threads == 0 {
            Some("runtime.worker_threads must be at least 1"@)
        } else if self.runtime.max_blocking_threads == 0 {
            Some("runtime.max_blocking_threads must be at least 1"@)
        } else if self.runtime.thread_stack_size < 1024 * 1024 {
            Some("runtime.thread_stack_size must be at least 1 MiB"@)
        } else {
            self.engine.problem()
        }
    }

    /// Check every limit; the first one that is broken is named.
    pub fn validate(&self) -> (r: Result<(), String>)
        ensures
            r is Ok <==> self.problem() is None,
            r matches Err(e) ==> self.problem() == Some(e@),
    {
        if self.application_id.get() == 0 {
            return Err(
                "application_id must be set (via config, APPLICATION_ID, or AZALEA_APPLICATION_ID)".to_owned(),
            );
        }
        if self.runtime.worker_threads == 0 {
            return Err("runtime.worker_threads must be at least 1".to_owned());
        }
        if self.runtime.max_blocking_threads == 0 {
            return Err("runtime.max_blocking_threads must be at least 1".to_owned());
        }
        if self.runtime.thread_stack_size < 1024 * 1024 {
            return Err("runtime.thread_stack_size must be at least 1 MiB".to_owned());
        }
        self.engine.validate()
    }

    /// Upload timeout in seconds.
    pub fn upload_timeout(&self) -> (r: u64)
        ensures
            r == self.engine.pipeline.upload_timeout_secs,
    {
        self.engine.upload_timeout()
    }
}

// ---------------------------------------------------------------------------
// Variables and the settings they stand for
// ---------------------------------------------------------------------------
/// A variable, without its prefix, and the setting it overrides.
#[derive(Debug, Clone, Copy)]
pub struct EnvBinding {
    pub key: &'static str,
    pub alias: Option<&'static str>,
    pub section: Option<&'static str>,
    pub field: &'static str,
}

/// A binding as values.
pub struct BindingModel {
    pub key: Seq<char>,
    pub alias: Option<Seq<char>>,
    pub section: Option<Seq<char>>,
    pub field: Seq<char>,
}

pub open spec fn static_text(t: Option<&'static str>) -> Option<Seq<char>> {
    match t {
        Some(s) => Some(s@),
        None => None,
    }
}

pub open spec fn binding_model(b: EnvBinding) -> BindingModel {
    BindingModel {
        key: b.key@,
        alias: static_text(b.alias),
        section: static_text(b.section),
        field: b.field@,
    }
}

pub open spec fn binding_models(v: Seq<EnvBinding>) -> Seq<BindingModel> {
    v.map_values(|b: EnvBinding| binding_model(b))
}

pub open spec fn top_level(key: Seq<char>, field: Seq<char>) -> BindingModel {
    BindingModel { key, alias: None, section: None, field }
}

pub open spec fn in_section(key: Seq<char>, section: Seq<char>, field: Seq<char>) -> BindingModel {
    BindingModel { key, alias: None, section: Some(section), field }
}

pub open spec fn aliased(
    key: Seq<char>,
    alias: Seq<char>,
    section: Seq<char>,
    field: Seq<char>,
) -> BindingModel {
    BindingModel { key, alias: Some(alias), section: Some(section), field }
}

fn bound(key: &'static str, section: &'static str, field: &'static str) -> (b: EnvBinding)
    ensures
        binding_model(b) == in_section(key@, section@, field@),
{
    EnvBinding { key, alias: None, section: Some(section), field }
}

/// The variables of the top level.
pub open spec fn top_bindings() -> Seq<BindingModel> {
    seq![
        top_level("APPLICATION_ID"@, "application_id"@),
    ]
}

fn add_top_bindings(v: &mut Vec<EnvBinding>)
    ensures
        binding_models(final(v)@) == binding_models(old(v)@) + top_bindings(),
{
    let ghost before = v@;
    v.push(EnvBinding { key: "APPLICATION_ID", alias: None, section: None, field: "application_id" });
    assert(binding_models(v@) =~= binding_models(before) + top_bindings());
}

/// The variables of the `runtime` section.
pub open spec fn runtime_bindings() -> Seq<BindingModel> {
    seq![
        in_section("WORKER_THREADS"@, "runtime"@, "worker_threads"@),
        in_section("MAX_BLOCKING_THREADS"@, "runtime"@, "max_blocking_threads"@),
        in_section("THREAD_STACK_SIZE"@, "runtime"@, "thread_stack_size"@),
    ]
}

fn add_runtime_bindings(v: &mut Vec<EnvBinding>)
    ensures
        binding_models(final(v)@) == binding_models(old(v)@) + runtime_bindings(),
{
    let ghost before = v@;
    v.push(bound("WORKER_THREADS", "runtime", "worker_threads"));
    v.push(bound("MAX_BLOCKING_THREADS", "runtime", "max_blocking_threads"));
    v.push(bound("THREAD_STACK_SIZE", "runtime", "thread_stack_size"));
    assert(binding_models(v@) =~= binding_models(before) + runtime_bindings());
}

/// The variables of the `concurrency` section.
pub open spec fn concurrency_bindings() -> Seq<BindingModel> {
    seq![
        in_section("DOWNLOAD"@, "concurrency"@, "download"@),
        in_section("UPLOAD"@, "concurrency"@, "upload"@),
        in_section("TRANSCODE"@, "concurrency"@, "transcode"@),
        in_section("YTDLP"@, "concurrency"@, "ytdlp"@),
        in_section("PIPELINE"@, "concurrency"@, "pipeline"@),
    ]
}

fn add_concurrency_bindings(v: &mut Vec<EnvBinding>)
    ensures
        binding_models(final(v)@) == binding_models(old(v)@) + concurrency_bindings(),
{
    let ghost before = v@;
    v.push(bound("DOWNLOAD", "concurrency", "download"));
    v.push(bound("UPLOAD", "concurrency", "upload"));
    v.push(bound("TRANSCODE", "concurrency", "transcode"));
    v.push(bound("YTDLP", "concurrency", "ytdlp"));
    v.push(bound("PIPELINE", "concurrency", "pipeline"));
    assert(binding_models(v@) =~= binding_models(before) + concurrency_bindings());
}

/// The variables of the `http` section.
pub open spec fn http_bindings() -> Seq<BindingModel> {
    seq![
        in_section("POOL_MAX_IDLE_PER_HOST"@, "http"@, "pool_max_idle_per_host"@),
        in_section("POOL_IDLE_TIMEOUT_SECS"@, "http"@, "pool_idle_timeout_secs"@),
        in_section("CONNECT_TIMEOUT_SECS"@, "http"@, "connect_timeout_secs"@),
        in_section("TIMEOUT_SECS"@, "http"@, "timeout_secs"@),
    ]
}

fn add_http_bindings(v: &mut Vec<EnvBinding>)
    ensures
        binding_models(final(v)@) == binding_models(old(v)@) + http_bindings(),
{
    let ghost before = v@;
    v.push(bound("POOL_MAX_IDLE_PER_HOST", "http", "pool_max_idle_per_host"));
    v.push(bound("POOL_IDLE_TIMEOUT_SECS", "http", "pool_idle_timeout_secs"));
    v.push(bound("CONNECT_TIMEOUT_SECS", "http", "connect_timeout_secs"));
    v.push(bound("TIMEOUT_SECS", "http", "timeout_secs"));
    assert(binding_models(v@) =~= binding_models(before) + http_bindings());
}

/// The variables of the `storage` section.
pub open spec fn storage_bindings() -> Seq<BindingModel> {
    seq![
        in_section("TEMP_DIR"@, "storage"@, "temp_dir"@),
        in_section("DEDUP_TTL_HOURS"@, "storage"@, "dedup_ttl_hours"@),
        in_section("DEDUP_CACHE_SIZE"@, "storage"@, "dedup_cache_size"@),
        in_section("DEDUP_PERSISTENT"@, "storage"@, "dedup_persistent"@),
        in_section("DEDUP_DB_PATH"@, "storage"@, "dedup_db_path"@),
        in_section("DEDUP_FLUSH_INTERVAL_SECS"@, "storage"@, "dedup_flush_interval_secs"@),
        in_section("METRICS_DB_PATH"@, "storage"@, "metrics_db_path"@),
        in_section("METRICS_ENABLED"@, "storage"@, "metrics_enabled"@),
        in_section("RESOLVER_CACHE_TTL_SECS"@, "storage"@, "resolver_cache_ttl_secs"@),
        in_section("RESOLVER_CACHE_SIZE"@, "storage"@, "resolver_cache_size"@),
        in_section("RESOLVER_NEGATIVE_TTL_SECS"@, "storage"@, "resolver_negative_ttl_secs"@),
    ]
}

fn add_storage_bindings(v: &mut Vec<EnvBinding>)
    ensures
        binding_models(final(v)@) == binding_models(old(v)@) + storage_bindings(),
{
    let ghost before = v@;
    v.push(bound("TEMP_DIR", "storage", "temp_dir"));
    v.push(bound("DEDUP_TTL_HOURS", "storage", "dedup_ttl_hours"));
    v.push(bound("DEDUP_CACHE_SIZE", "storage", "dedup_cache_size"));
    v.push(bound("DEDUP_PERSISTENT", "storage", "dedup_persistent"));
    v.push(bound("DEDUP_DB_PATH", "storage", "dedup_db_path"));
    v.push(bound("DEDUP_FLUSH_INTERVAL_SECS", "storage", "dedup_flush_interval_secs"));
    v.push(bound("METRICS_DB_PATH", "storage", "metrics_db_path"));
    v.push(bound("METRICS_ENABLED", "storage", "metrics_enabled"));
    v.push(bound("RESOLVER_CACHE_TTL_SECS", "storage", "resolver_cache_ttl_secs"));
    v.push(bound("RESOLVER_CACHE_SIZE", "storage", "resolver_cache_size"));
    v.push(bound("RESOLVER_NEGATIVE_TTL_SECS", "storage", "resolver_negative_ttl_secs"));
    assert(binding_models(v@) =~= binding_models(before) + storage_bindings());
}

/// The variables of the `transcode` section.
pub open spec fn transcode_bindings() -> Seq<BindingModel> {
    seq![
        in_section("QUALITY_PRESET"@, "transcode"@, "quality_preset"@),
        in_section("HARDWARE_ACCELERATION"@, "transcode"@, "hardware_acceleration"@),
        in_section("FFMPEG_THREADS"@, "transcode"@, "ffmpeg_threads"@),
        in_section("VAAPI_DEVICE"@, "transcode"@, "vaapi_device"@),
        in_section("MAX_UPLOAD_BYTES"@, "transcode"@, "max_upload_bytes"@),
        in_section("CONTAINER_OVERHEAD_RATIO"@, "transcode"@, "container_overhead_ratio"@),
        in_section("VBR_SAFETY_MARGIN"@, "transcode"@, "vbr_safety_margin"@),
        in_section("TRANSCODE_TARGET_RATIO"@, "transcode"@, "transcode_target_ratio"@),
        in_section("SPLIT_TARGET_RATIO"@, "transcode"@, "split_target_ratio"@),
        in_section("AUDIO_VBR_PADDING"@, "transcode"@, "audio_vbr_padding"@),
        in_section("MIN_BITRATE_KBPS"@, "transcode"@, "min_bitrate_kbps"@),
        in_section("MAX_SINGLE_VIDEO_DURATION_SECS"@, "transcode"@, "max_single_video_duration_secs"@),
        in_section("FFPROBE_TIMEOUT_SECS"@, "transcode"@, "ffprobe_timeout_secs"@),
        in_section("FFMPEG_TIMEOUT_SECS"@, "transcode"@, "ffmpeg_timeout_secs"@),
    ]
}

fn add_transcode_bindings(v: &mut Vec<EnvBinding>)
    ensures
        binding_models(final(v)@) == binding_models(old(v)@) + transcode_bindings(),
{
    let ghost before = v@;
    v.push(bound("QUALITY_PRESET", "transcode", "quality_preset"));
    v.push(bound("HARDWARE_ACCELERATION", "transcode", "hardware_acceleration"));
    v.push(bound("FFMPEG_THREADS", "transcode", "ffmpeg_threads"));
    v.push(bound("VAAPI_DEVICE", "transcode", "vaapi_device"));
    v.push(bound("MAX_UPLOAD_BYTES", "transcode", "max_upload_bytes"));
    v.push(bound("CONTAINER_OVERHEAD_RATIO", "transcode", "container_overhead_ratio"));
    v.push(bound("VBR_SAFETY_MARGIN", "transcode", "vbr_safety_margin"));
    v.push(bound("TRANSCODE_TARGET_RATIO", "transcode", "transcode_target_ratio"));
    v.push(bound("SPLIT_TARGET_RATIO", "transcode", "split_target_ratio"));
    v.push(bound("AUDIO_VBR_PADDING", "transcode", "audio_vbr_padding"));
    v.push(bound("MIN_BITRATE_KBPS", "transcode", "min_bitrate_kbps"));
    v.push(bound("MAX_SINGLE_VIDEO_DURATION_SECS", "transcode", "max_single_video_duration_secs"));
    v.push(bound("FFPROBE_TIMEOUT_SECS", "transcode", "ffprobe_timeout_secs"));
    v.push(bound("FFMPEG_TIMEOUT_SECS", "transcode", "ffmpeg_timeout_secs"));
    assert(binding_models(v@) =~= binding_models(before) + transcode_bindings());
}

/// The variables of the `pipeline` section.
pub open spec fn pipeline_bindings() -> Seq<BindingModel> {
    seq![
        in_section("QUEUE_BACKPRESSURE_TIMEOUT_MS"@, "pipeline"@, "queue_backpressure_timeout_ms"@),
        in_section("DOWNLOAD_TIMEOUT_SECS"@, "pipeline"@, "download_timeout_secs"@),
        in_section("UPLOAD_TIMEOUT_SECS"@, "pipeline"@, "upload_timeout_secs"@),
        in_section("MIN_DISK_SPACE_BYTES"@, "pipeline"@, "min_disk_space_bytes"@),
        in_section("MAX_DOWNLOAD_BYTES"@, "pipeline"@, "max_download_bytes"@),
        in_section("RESOLVER_TIMEOUT_SECS"@, "pipeline"@, "resolver_timeout_secs"@),
        in_section("YTDLP_TIMEOUT_SECS"@, "pipeline"@, "ytdlp_timeout_secs"@),
        in_section("USER_RATE_LIMIT_REQUESTS"@, "pipeline"@, "user_rate_limit_requests"@),
        in_section("USER_RATE_LIMIT_WINDOW_SECS"@, "pipeline"@, "user_rate_limit_window_secs"@),
        in_section("CHANNEL_RATE_LIMIT_REQUESTS"@, "pipeline"@, "channel_rate_limit_requests"@),
        in_section("CHANNEL_RATE_LIMIT_WINDOW_SECS"@, "pipeline"@, "channel_rate_limit_window_secs"@),
        in_section("PARALLEL_SEGMENT_THRESHOLD"@, "pipeline"@, "parallel_segment_threshold"@),
    ]
}

fn add_pipeline_bindings(v: &mut Vec<EnvBinding>)
    ensures
        binding_models(final(v)@) == binding_models(old(v)@) + pipeline_bindings(),
{
    let ghost before = v@;
    v.push(bound("QUEUE_BACKPRESSURE_TIMEOUT_MS", "pipeline", "queue_backpressure_timeout_ms"));
    v.push(bound("DOWNLOAD_TIMEOUT_SECS", "pipeline", "download_timeout_secs"));
    v.push(bound("UPLOAD_TIMEOUT_SECS", "pipeline", "upload_timeout_secs"));
    v.push(bound("MIN_DISK_SPACE_BYTES", "pipeline", "min_disk_space_bytes"));
    v.push(bound("MAX_DOWNLOAD_BYTES", "pipeline", "max_download_bytes"));
    v.push(bound("RESOLVER_TIMEOUT_SECS", "pipeline", "resolver_timeout_secs"));
    v.push(bound("YTDLP_TIMEOUT_SECS", "pipeline", "ytdlp_timeout_secs"));
    v.push(bound("USER_RATE_LIMIT_REQUESTS", "pipeline", "user_rate_limit_requests"));
    v.push(bound("USER_RATE_LIMIT_WINDOW_SECS", "pipeline", "user_rate_limit_window_secs"));
    v.push(bound("CHANNEL_RATE_LIMIT_REQUESTS", "pipeline", "channel_rate_limit_requests"));
    v.push(bound("CHANNEL_RATE_LIMIT_WINDOW_SECS", "pipeline", "channel_rate_limit_window_secs"));
    v.push(bound("PARALLEL_SEGMENT_THRESHOLD", "pipeline", "parallel_segment_threshold"));
    assert(binding_models(v@) =~= binding_models(before) + pipeline_bindings());
}

/// The variables of the `binaries` section.
pub open spec fn binaries_bindings() -> Seq<BindingModel> {
    seq![
        aliased("FFMPEG"@, "FFMPEG_PATH"@, "binaries"@, "ffmpeg"@),
        aliased("FFPROBE"@, "FFPROBE_PATH"@, "binaries"@, "ffprobe"@),
        in_section("YTDLP_PATH"@, "binaries"@, "ytdlp"@),
    ]
}

fn add_binaries_bindings(v: &mut Vec<EnvBinding>)
    ensures
        binding_models(final(v)@) == binding_models(old(v)@) + binaries_bindings(),
{
    let ghost before = v@;
    v.push(
        EnvBinding {
            key: "FFMPEG",
            alias: Some("FFMPEG_PATH"),
            section: Some("binaries"),
            field: "ffmpeg",
        },
    );
    v.push(
        EnvBinding {
            key: "FFPROBE",
            alias: Some("FFPROBE_PATH"),
            section: Some("binaries"),
            field: "ffprobe",
        },
    );
    v.push(bound("YTDLP_PATH", "binaries", "ytdlp"));
    assert(binding_models(v@) =~= binding_models(before) + binaries_bindings());
}

/// All variables.
pub open spec fn bindings() -> Seq<BindingModel> {
    top_bindings() + runtime_bindings() + concurrency_bindings() + http_bindings()
        + storage_bindings() + transcode_bindings() + pipeline_bindings() + binaries_bindings()
}

/// The table of variables.
pub fn env_bindings() -> (v: Vec<EnvBinding>)
    ensures
        binding_models(v@) == bindings(),
{
    let mut v: Vec<EnvBinding> = Vec::new();
    add_top_bindings(&mut v);
    add_runtime_bindings(&mut v);
    add_concurrency_bindings(&mut v);
    add_http_bindings(&mut v);
    add_storage_bindings(&mut v);
    add_transcode_bindings(&mut v);
    add_pipeline_bindings(&mut v);
    add_binaries_bindings(&mut v);
    assert(binding_models(v@) =~= bindings());
    v
}

pub open spec fn binding_matches(b: BindingModel, key: Seq<char>) -> bool {
    b.key == key || b.alias == Some(key)
}

impl EnvBinding {
    pub fn matches(self, key: &str) -> (r: bool)
        ensures
            r == binding_matches(binding_model(self), key@),
    {
        same(self.key, key) || match self.alias {
            Some(alias) => same(alias, key),
            None => false,
        }
    }
}

/// The setting of the first variable with this name, from place `i` on.
pub open spec fn bound_path(all: Seq<BindingModel>, key: Seq<char>, i: int) -> Option<Seq<Seq<char>>>
    decreases all.len() - i,
{
    if 0 <= i < all.len() {
        if binding_matches(all[i], key) {
            Some(
                match all[i].section {
                    Some(section) => seq![section, all[i].field],
                    None => seq![all[i].field],
                },
            )
        } else {
            bound_path(all, key, i + 1)
        }
    } else {
        None
    }
}

/// The setting that an environment variable overrides.
pub open spec fn env_path(key: Seq<char>) -> Option<Seq<Seq<char>>> {
    let name = upper(trim(key));
    if name.len() == 0 || name == "DISCORD_TOKEN"@ {
        None
    } else if name == "APPLICATION_ID"@ {
        Some(seq!["application_id"@])
    } else if starts_with(name, "AZALEA_"@) {
        bound_path(bindings(), name.skip("AZALEA_"@.len() as int), 0)
    } else {
        None
    }
}

pub open spec fn path_views(path: Option<Vec<String>>) -> Option<Seq<Seq<char>>> {
    match path {
        Some(v) => Some(views(v@)),
        None => None,
    }
}

/// Find the setting of an environment variable.
pub fn config_path_from_env_key(key: &str) -> (r: Option<Vec<String>>)
    ensures
        path_views(r) == env_path(key@),
{
    let trimmed = trim_str(key);
    let name = upper_str(trimmed.as_str());
    if name.as_str().is_empty() || same(name.as_str(), "DISCORD_TOKEN") {
        return None;
    }
    if same(name.as_str(), "APPLICATION_ID") {
        let mut path: Vec<String> = Vec::new();
        path.push("application_id".to_owned());
        assert(views(path@) =~= seq!["application_id"@]);
        return Some(path);
    }
    let suffix = match strip_prefix(name.as_str(), "AZALEA_") {
        Some(suffix) => suffix,
        None => {
            return None;
        },
    };
    let table = env_bindings();
    let ghost all = bindings();
    let mut i: usize = 0;
    while i < table.len()
        invariant
            i <= table@.len(),
            all == bindings(),
            binding_models(table@) == all,
            env_path(key@) == bound_path(all, suffix@, 0),
            bound_path(all, suffix@, 0) == bound_path(all, suffix@, i as int),
        decreases table@.len() - i,
    {
        assert(all[i as int] == binding_model(table@[i as int]));
        if table[i].matches(suffix.as_str()) {
            let mut path: Vec<String> = Vec::new();
            if let Some(section) = table[i].section {
                path.push(section.to_owned());
            }
            path.push(table[i].field.to_owned());
            assert(views(path@) =~= bound_path(all, suffix@, i as int)->0);
            return Some(path);
        }
        i = i + 1;
    }
    assert(all.len() == table@.len());
    None
}

/// Both names of the application id lead to the same setting, however they are
/// written.
pub proof fn lemma_application_id_names(key: Seq<char>)
    requires
        upper(trim(key)) == "APPLICATION_ID"@ || upper(trim(key)) == "AZALEA_"@
            + "APPLICATION_ID"@,
    ensures
        env_path(key) == Some(seq!["application_id"@]),
{
    reveal_strlit("APPLICATION_ID");
    reveal_strlit("AZALEA_");
    reveal_strlit("DISCORD_TOKEN");
    let name = upper(trim(key));
    if name != "APPLICATION_ID"@ {
        assert(name.take(7) =~= "AZALEA_"@);
        assert(name.skip(7) =~= "APPLICATION_ID"@);
        assert(bindings()[0] == top_level("APPLICATION_ID"@, "application_id"@));
        assert(name.len() == 21);
        assert("DISCORD_TOKEN"@.len() == 13);
        assert("APPLICATION_ID"@.len() == 14);
    } else {
        assert(name.len() == 14);
        assert("DISCORD_TOKEN"@.len() == 13);
    }
}

// ---------------------------------------------------------------------------
// Values
// ---------------------------------------------------------------------------
/// A value out of the environment.
#[derive(Debug)]
pub enum EnvScalar {
    Bool { value: bool },
    Signed { value: i64 },
    Unsigned { value: u64 },
    /// Any other number. One without a finite value is text after all.
    Fraction { text: String },
    Text { text: String },
}

pub open spec fn is_scalar(scalar: EnvScalar, raw: Seq<char>) -> bool {
    let value = trim(raw);
    if lower(value) == "true"@ {
        scalar == (EnvScalar::Bool { value: true })
    } else if lower(value) == "false"@ {
        scalar == (EnvScalar::Bool { value: false })
    } else {
        match parse_signed(value, i64::MIN as int, i64::MAX as int) {
            Some(n) => scalar == (EnvScalar::Signed { value: n as i64 }),
            None => match parse_unsigned(value, u64::MAX as nat) {
                Some(n) => scalar == (EnvScalar::Unsigned { value: n as u64 }),
                None => if is_float_text(value) {
                    scalar matches EnvScalar::Fraction { text } && text@ == value
                } else {
                    scalar matches EnvScalar::Text { text } && text@ == value
                },
            },
        }
    }
}

/// Read a value: a truth value, a number, or text.
pub fn parse_env_scalar(raw_value: &str) -> (r: EnvScalar)
    ensures
        is_scalar(r, raw_value@),
{
    let value = trim_str(raw_value);
    let lowered = lower_str(value.as_str());
    if same(lowered.as_str(), "true") {
        return EnvScalar::Bool { value: true };
    }
    if same(lowered.as_str(), "false") {
        return EnvScalar::Bool { value: false };
    }
    if let Some(n) = parse_i64(value.as_str()) {
        return EnvScalar::Signed { value: n };
    }
    if let Some(n) = parse_u64(value.as_str()) {
        return EnvScalar::Unsigned { value: n };
    }
    if float_text(value.as_str()) {
        return EnvScalar::Fraction { text: value };
    }
    EnvScalar::Text { text: value }
}

/// A variable and its value.
#[derive(Debug)]
pub struct EnvEntry {
    pub key: String,
    pub value: String,
}

/// A setting and the value that overrides it.
#[derive(Debug)]
pub struct Override {
    pub path: Vec<String>,
    pub value: EnvScalar,
}

/// The settings that the entries before `n` name, each once, in the order in
/// which they first come.
pub open spec fn named_paths(entries: Seq<EnvEntry>, n: int) -> Seq<Seq<Seq<char>>>
    decreases n,
{
    if n <= 0 {
        Seq::empty()
    } else {
        let rest = named_paths(entries, n - 1);
        match env_path(entries[n - 1].key@) {
            Some(path) if !rest.contains(path) => rest.push(path),
            _ => rest,
        }
    }
}

/// The value of the last entry before `n` that names a setting.
pub open spec fn last_value(entries: Seq<EnvEntry>, path: Seq<Seq<char>>, n: int) -> Option<
    Seq<char>,
>
    decreases n,
{
    if n <= 0 {
        None
    } else if env_path(entries[n - 1].key@) == Some(path) {
        Some(entries[n - 1].value@)
    } else {
        last_value(entries, path, n - 1)
    }
}

/// The overrides of the entries before `n`: each named setting once, with the
/// value that was given last.
pub open spec fn overrides_of(overrides: Seq<Override>, entries: Seq<EnvEntry>, n: int) -> bool {
    let paths = named_paths(entries, n);
    &&& overrides.len() == paths.len()
    &&& forall|i: int|
        0 <= i < overrides.len() ==> views((#[trigger] overrides[i]).path@) == paths[i] && (
        last_value(entries, paths[i], n) matches Some(raw) && is_scalar(overrides[i].value, raw))
}

/// Each path stands once.
pub open spec fn each_path_once(overrides: Seq<Override>) -> bool {
    forall|i: int, j: int|
        0 <= i < j < overrides.len() ==> views((#[trigger] overrides[i]).path@) != views(
            (#[trigger] overrides[j]).path@,
        )
}

/// A setting is among the paths exactly where it has a value, and no path
/// stands twice.
proof fn lemma_named_paths(entries: Seq<EnvEntry>, n: int)
    ensures
        named_paths(entries, n).no_duplicates(),
        forall|path: Seq<Seq<char>>| #[trigger]
            named_paths(entries, n).contains(path) <==> last_value(entries, path, n) is Some,
    decreases n,
{
    if n > 0 {
        lemma_named_paths(entries, n - 1);
        let rest = named_paths(entries, n - 1);
        let all = named_paths(entries, n);
        assert forall|path: Seq<Seq<char>>| #[trigger] all.contains(path) <==> last_value(
            entries,
            path,
            n,
        ) is Some by {
            assert(rest.contains(path) <==> last_value(entries, path, n - 1) is Some);
            if let Some(named) = env_path(entries[n - 1].key@) {
                if !rest.contains(named) {
                    assert(all == rest.push(named));
                    assert(all[rest.len() as int] == named);
                    if rest.contains(path) {
                        let at = choose|at: int| 0 <= at < rest.len() && rest[at] == path;
                        assert(all[at] == path);
                    }
                }
            }
        }
    }
}

/// What an entry list says of a setting does not depend on entries behind it.
proof fn lemma_prefix_decides(
    shorter: Seq<EnvEntry>,
    longer: Seq<EnvEntry>,
    path: Seq<Seq<char>>,
    n: int,
)
    requires
        n <= shorter.len() <= longer.len(),
        forall|i: int| 0 <= i < shorter.len() ==> shorter[i] == longer[i],
    ensures
        last_value(shorter, path, n) == last_value(longer, path, n),
    decreases n,
{
    if n > 0 {
        lemma_prefix_decides(shorter, longer, path, n - 1);
    }
}

proof fn lemma_value_behind(
    dotenv: Seq<EnvEntry>,
    process: Seq<EnvEntry>,
    path: Seq<Seq<char>>,
    n: int,
)
    requires
        0 <= n <= process.len(),
    ensures
        last_value(dotenv + process, path, dotenv.len() + n) == (match last_value(
            process,
            path,
            n,
        ) {
            Some(value) => Some(value),
            None => last_value(dotenv, path, dotenv.len() as int),
        }),
    decreases n,
{
    if n == 0 {
        lemma_prefix_decides(dotenv, dotenv + process, path, dotenv.len() as int);
    } else {
        lemma_value_behind(dotenv, process, path, n - 1);
        assert((dotenv + process)[dotenv.len() + n - 1] == process[n - 1]);
    }
}

/// The value that overrides a setting: the process environment goes before the
/// dotenv file, and of each the last value counts.
pub open spec fn chosen_value(
    dotenv: Seq<EnvEntry>,
    process: Seq<EnvEntry>,
    path: Seq<Seq<char>>,
) -> Option<Seq<char>> {
    match last_value(process, path, process.len() as int) {
        Some(value) => Some(value),
        None => last_value(dotenv, path, dotenv.len() as int),
    }
}

fn same_path(a: &Vec<String>, b: &Vec<String>) -> (r: bool)
    ensures
        r == (views(a@) == views(b@)),
{
    if a.len() != b.len() {
        assert(views(a@).len() != views(b@).len());
        return false;
    }
    let mut i: usize = 0;
    while i < a.len()
        invariant
            i <= a@.len(),
            a@.len() == b@.len(),
            forall|j: int| 0 <= j < i ==> (#[trigger] a@[j])@ == b@[j]@,
        decreases a@.len() - i,
    {
        if !same(a[i].as_str(), b[i].as_str()) {
            assert(views(a@)[i as int] != views(b@)[i as int]);
            return false;
        }
        i = i + 1;
    }
    assert(views(a@) =~= views(b@));
    true
}

/// Put an override into a list: in the place of an earlier one of the same
/// setting, else last.
fn place_override(overrides: &mut Vec<Override>, path: Vec<String>, value: EnvScalar)
    ensures
        ({
            let put = Override { path, value };
            let before = old(overrides)@;
            let after = final(overrides)@;
            ||| after == before.push(put) && forall|i: int|
                0 <= i < before.len() ==> views((#[trigger] before[i]).path@) != views(path@)
            ||| exists|at: int|
                0 <= at < before.len() && views((#[trigger] before[at]).path@) == views(path@)
                    && after == before.update(at, put)
        }),
{
    let mut i: usize = 0;
    while i < overrides.len()
        invariant
            i <= overrides@.len(),
            overrides@ == old(overrides)@,
            forall|j: int|
                0 <= j < i ==> views((#[trigger] overrides@[j]).path@) != views(path@),
        decreases overrides@.len() - i,
    {
        if same_path(&overrides[i].path, &path) {
            assert(views(old(overrides)@[i as int].path@) == views(path@));
            overrides.set(i, Override { path, value });
            return;
        }
        i = i + 1;
    }
    overrides.push(Override { path, value });
}

/// Take in one entry more.
fn add_override(
    overrides: &mut Vec<Override>,
    entry: &EnvEntry,
    Ghost(entries): Ghost<Seq<EnvEntry>>,
    Ghost(n): Ghost<int>,
)
    requires
        0 <= n < entries.len(),
        entries[n] == *entry,
        overrides_of(old(overrides)@, entries, n),
    ensures
        overrides_of(final(overrides)@, entries, n + 1),
{
    let ghost rest = named_paths(entries, n);
    let ghost before = overrides@;
    proof {
        lemma_named_paths(entries, n);
    }
    if let Some(path) = config_path_from_env_key(entry.key.as_str()) {
        let value = parse_env_scalar(entry.value.as_str());
        let ghost named = views(path@);
        place_override(overrides, path, value);
        proof {
            if rest.contains(named) {
                let place = choose|at: int| 0 <= at < rest.len() && rest[at] == named;
                assert(views(before[place].path@) == named);
                let at = choose|at: int|
                    0 <= at < before.len() && views((#[trigger] before[at]).path@) == named
                        && overrides@ == before.update(at, overrides@[at]);
                assert forall|i: int| 0 <= i < overrides@.len() implies views(
                    (#[trigger] overrides@[i]).path@,
                ) == rest[i] && (last_value(entries, rest[i], n + 1) matches Some(raw)
                    && is_scalar(overrides@[i].value, raw)) by {
                    assert(views(before[i].path@) == rest[i]);
                    if i != at {
                        assert(rest[at] == named);
                        assert(rest[i] != named);
                    }
                }
            } else {
                assert forall|i: int| 0 <= i < before.len() implies views(
                    (#[trigger] before[i]).path@,
                ) != named by {
                    assert(rest[i] == views(before[i].path@));
                    assert(rest.contains(rest[i]));
                }
                assert(named_paths(entries, n + 1) == rest.push(named));
                assert forall|i: int| 0 <= i < overrides@.len() implies views(
                    (#[trigger] overrides@[i]).path@,
                ) == rest.push(named)[i] && (last_value(entries, rest.push(named)[i], n + 1)
                    matches Some(raw) && is_scalar(overrides@[i].value, raw)) by {
                    if i < before.len() {
                        assert(overrides@[i] == before[i]);
                    }
                }
            }
        }
    }
}

/// The overrides of a list of variables; other variables are passed over. Each
/// setting stands once, with the value that was given last.
pub fn build_env_overrides(entries: &Vec<EnvEntry>) -> (r: Vec<Override>)
    ensures
        overrides_of(r@, entries@, entries@.len() as int),
        each_path_once(r@),
{
    let mut r: Vec<Override> = Vec::new();
    let mut i: usize = 0;
    while i < entries.len()
        invariant
            i <= entries@.len(),
            overrides_of(r@, entries@, i as int),
        decreases entries@.len() - i,
    {
        add_override(&mut r, &entries[i], Ghost(entries@), Ghost(i as int));
        i = i + 1;
    }
    proof {
        lemma_named_paths(entries@, entries@.len() as int);
    }
    r
}

/// The overrides of a dotenv file and the process environment together. Each
/// setting that one of them names stands once; where both name it, the process
/// environment decides.
pub fn merge_env_overrides(dotenv_entries: &Vec<EnvEntry>, process_env: &Vec<EnvEntry>) -> (r: Vec<
    Override,
>)
    ensures
        overrides_of(
            r@,
            dotenv_entries@ + process_env@,
            (dotenv_entries@.len() + process_env@.len()) as int,
        ),
        each_path_once(r@),
        forall|i: int|
            0 <= i < r@.len() ==> (chosen_value(
                dotenv_entries@,
                process_env@,
                views((#[trigger] r@[i]).path@),
            ) matches Some(raw) && is_scalar(r@[i].value, raw)),
        forall|path: Seq<Seq<char>>|
            (#[trigger] chosen_value(dotenv_entries@, process_env@, path)) is Some ==> exists|
                i: int,
            |
                0 <= i < r@.len() && views((#[trigger] r@[i]).path@) == path,
{
    let ghost all = dotenv_entries@ + process_env@;
    let ghost first = dotenv_entries@.len() as int;
    let mut r: Vec<Override> = Vec::new();
    let mut i: usize = 0;
    while i < dotenv_entries.len()
        invariant
            i <= dotenv_entries@.len(),
            all == dotenv_entries@ + process_env@,
            overrides_of(r@, all, i as int),
        decreases dotenv_entries@.len() - i,
    {
        add_override(&mut r, &dotenv_entries[i], Ghost(all), Ghost(i as int));
        i = i + 1;
    }
    let mut j: usize = 0;
    while j < process_env.len()
        invariant
            j <= process_env@.len(),
            all == dotenv_entries@ + process_env@,
            first == dotenv_entries@.len(),
            overrides_of(r@, all, first + j),
        decreases process_env@.len() - j,
    {
        add_override(&mut r, &process_env[j], Ghost(all), Ghost(first + j));
        j = j + 1;
    }
    proof {
        let n = all.len() as int;
        let paths = named_paths(all, n);
        lemma_named_paths(all, n);
        assert forall|path: Seq<Seq<char>>| last_value(all, path, n) == #[trigger] chosen_value(
            dotenv_entries@,
            process_env@,
            path,
        ) by {
            lemma_value_behind(dotenv_entries@, process_env@, path, process_env@.len() as int);
        }
        assert forall|path: Seq<Seq<char>>|
            (#[trigger] chosen_value(dotenv_entries@, process_env@, path)) is Some implies exists|
            k: int,
        |
            0 <= k < r@.len() && views((#[trigger] r@[k]).path@) == path by {
            assert(paths.contains(path));
            let k = choose|k: int| 0 <= k < paths.len() && paths[k] == path;
            assert(views(r@[k].path@) == path);
        }
    }
    r
}

// ---------------------------------------------------------------------------
// Dotenv files
// ---------------------------------------------------------------------------
/// What one line of a dotenv file says.
pub enum DotenvLine {
    Blank,
    NoEquals,
    NoKey,
    Entry { key: Seq<char>, value: Seq<char> },
}

/// A value without the quotes around it.
pub open spec fn unquoted(value: Seq<char>) -> Seq<char> {
    if value.len() >= 2 && ((value[0] == '"' && value.last() == '"') || (value[0] == '\''
        && value.last() == '\'')) {
        value.subrange(1, value.len() - 1)
    } else {
        value
    }
}

/// The text behind a leading `export `.
pub open spec fn without_export(line: Seq<char>) -> Seq<char> {
    if starts_with(line, "export "@) {
        line.skip("export "@.len() as int)
    } else {
        line
    }
}

pub open spec fn dotenv_line(raw: Seq<char>) -> DotenvLine {
    let trimmed = trim(raw);
    if trimmed.len() == 0 || trimmed[0] == '#' {
        DotenvLine::Blank
    } else {
        let line = without_export(trimmed);
        match line.index_of_first('=') {
            None => DotenvLine::NoEquals,
            Some(at) => {
                let key = trim(line.take(at));
                if key.len() == 0 {
                    DotenvLine::NoKey
                } else {
                    DotenvLine::Entry { key, value: unquoted(trim(line.skip(at + 1))) }
                }
            },
        }
    }
}

/// The entries of the lines before `n`; nothing where one of them is bad.
pub open spec fn dotenv_entries(all: Seq<Seq<char>>, n: int) -> Option<Seq<(Seq<char>, Seq<char>)>>
    decreases n,
{
    if n <= 0 {
        Some(Seq::empty())
    } else {
        match (dotenv_entries(all, n - 1), dotenv_line(all[n - 1])) {
            (Some(entries), DotenvLine::Blank) => Some(entries),
            (Some(entries), DotenvLine::Entry { key, value }) => Some(entries.push((key, value))),
            _ => None,
        }
    }
}

pub open spec fn entry_views(entries: Seq<EnvEntry>) -> Seq<(Seq<char>, Seq<char>)> {
    entries.map_values(|e: EnvEntry| (e.key@, e.value@))
}

/// `e` reports line `n`, the first bad one.
pub open spec fn is_dotenv_error(e: Seq<char>, all: Seq<Seq<char>>, n: int) -> bool {
    &&& 0 <= n < all.len()
    &&& dotenv_entries(all, n) is Some
    &&& match dotenv_line(all[n]) {
        DotenvLine::NoEquals => e == "invalid .env entry at line "@ + decimal((n + 1) as nat),
        DotenvLine::NoKey => e == "invalid .env key at line "@ + decimal((n + 1) as nat),
        _ => false,
    }
}

/// `e` reports the first bad line.
pub open spec fn reports_bad_line(e: Seq<char>, all: Seq<Seq<char>>) -> bool {
    exists|n: int| is_dotenv_error(e, all, n)
}

enum LineResult {
    Blank,
    NoEquals,
    NoKey,
    Entry(EnvEntry),
}

fn unquote(value: String) -> (r: String)
    ensures
        r@ == unquoted(value@),
{
    let v = chars_of(value.as_str());
    if v.len() >= 2 && ((v[0] == '"' && v[v.len() - 1] == '"') || (v[0] == '\'' && v[v.len() - 1]
        == '\'')) {
        string_of(&slice_chars(&v, 1, v.len() - 1))
    } else {
        value
    }
}

fn read_line(raw: &str) -> (r: LineResult)
    ensures
        match (r, dotenv_line(raw@)) {
            (LineResult::Blank, DotenvLine::Blank) => true,
            (LineResult::NoEquals, DotenvLine::NoEquals) => true,
            (LineResult::NoKey, DotenvLine::NoKey) => true,
            (LineResult::Entry(e), DotenvLine::Entry { key, value }) => e.key@ == key && e.value@
                == value,
            _ => false,
        },
{
    let trimmed = trim_str(raw);
    let v = chars_of(trimmed.as_str());
    if v.len() == 0 || v[0] == '#' {
        return LineResult::Blank;
    }
    let line = match strip_prefix(trimmed.as_str(), "export ") {
        Some(rest) => rest,
        None => trimmed,
    };
    proof {
        line@.index_of_first_ensures('=');
    }
    match split_once(line.as_str(), '=') {
        None => LineResult::NoEquals,
        Some((raw_key, raw_value)) => {
            proof {
                lemma_first_part(line@, '=', raw_key@, raw_value@);
            }
            let key = trim_str(raw_key.as_str());
            if key.as_str().is_empty() {
                return LineResult::NoKey;
            }
            let value = unquote(trim_str(raw_value.as_str()));
            LineResult::Entry(EnvEntry { key, value })
        },
    }
}

/// Read a dotenv file; the first bad line is reported by its number.
pub fn parse_dotenv_contents(contents: &str) -> (r: Result<Vec<EnvEntry>, String>)
    ensures
        r is Ok <==> dotenv_entries(lines(contents@), lines(contents@).len() as int) is Some,
        r matches Ok(entries) ==> dotenv_entries(
            lines(contents@),
            lines(contents@).len() as int,
        ) == Some(entry_views(entries@)),
        r matches Err(e) ==> reports_bad_line(e@, lines(contents@)),
{
    let all_lines = lines_of(contents);
    let ghost all = lines(contents@);
    assert(all.len() == all_lines@.len());
    let mut entries: Vec<EnvEntry> = Vec::new();
    assert(entry_views(entries@) =~= Seq::empty());
    let mut i: usize = 0;
    while i < all_lines.len()
        invariant
            i <= all_lines@.len(),
            all == lines(contents@),
            views(all_lines@) == all,
            dotenv_entries(all, i as int) == Some(entry_views(entries@)),
        decreases all_lines@.len() - i,
    {
        assert(all[i as int] == all_lines@[i as int]@);
        let ghost before = entries@;
        match read_line(all_lines[i].as_str()) {
            LineResult::Blank => {},
            LineResult::NoEquals => {
                let mut e = "invalid .env entry at line ".to_owned();
                e.append(decimal_of((i as u64) + 1).as_str());
                assert(is_dotenv_error(e@, all, i as int));
                assert(reports_bad_line(e@, all));
                proof {
                    lemma_reported_line_spoils_the_file(e@, all);
                }
                return Err(e);
            },
            LineResult::NoKey => {
                let mut e = "invalid .env key at line ".to_owned();
                e.append(decimal_of((i as u64) + 1).as_str());
                assert(is_dotenv_error(e@, all, i as int));
                assert(reports_bad_line(e@, all));
                proof {
                    lemma_reported_line_spoils_the_file(e@, all);
                }
                return Err(e);
            },
            LineResult::Entry(entry) => {
                entries.push(entry);
                assert(entry_views(entries@) =~= entry_views(before).push((entry.key@, entry.value@)));
            },
        }
        i = i + 1;
    }
    Ok(entries)
}

proof fn lemma_bad_line_spoils(all: Seq<Seq<char>>, bad: int, n: int)
    requires
        0 <= bad < n,
        dotenv_line(all[bad]) is NoEquals || dotenv_line(all[bad]) is NoKey,
    ensures
        dotenv_entries(all, n) is None,
    decreases n,
{
    if n > bad + 1 {
        lemma_bad_line_spoils(all, bad, n - 1);
    }
}

/// A file is read or refused, never both: where a line is reported, the file
/// has no entries to give.
pub proof fn lemma_reported_line_spoils_the_file(e: Seq<char>, all: Seq<Seq<char>>)
    requires
        reports_bad_line(e, all),
    ensures
        dotenv_entries(all, all.len() as int) is None,
{
    let n = choose|n: int| is_dotenv_error(e, all, n);
    lemma_bad_line_spoils(all, n, all.len() as int);
}

// ---------------------------------------------------------------------------
// The token
// ---------------------------------------------------------------------------
/// The value of the first variable that holds the token, from place `i` on.
pub open spec fn token_value(entries: Seq<EnvEntry>, i: int) -> Option<Seq<char>>
    decreases entries.len() - i,
{
    if 0 <= i < entries.len() {
        if lower(entries[i].key@) == lower("DISCORD_TOKEN"@) {
            Some(entries[i].value@)
        } else {
            token_value(entries, i + 1)
        }
    } else {
        None
    }
}

fn find_token(entries: &Vec<EnvEntry>) -> (r: Option<String>)
    ensures
        match r {
            Some(s) => token_value(entries@, 0) == Some(s@),
            None => token_value(entries@, 0) is None,
        },
{
    let name = lower_str("DISCORD_TOKEN");
    let mut i: usize = 0;
    while i < entries.len()
        invariant
            i <= entries@.len(),
            name@ == lower("DISCORD_TOKEN"@),
            token_value(entries@, 0) == token_value(entries@, i as int),
        decreases entries@.len() - i,
    {
        let key = lower_str(entries[i].key.as_str());
        if same(key.as_str(), name.as_str()) {
            return Some(entries[i].value.clone());
        }
        i = i + 1;
    }
    None
}

/// The value that counts: the environment goes before the dotenv file.
pub open spec fn chosen_token(dotenv: Seq<EnvEntry>, process: Seq<EnvEntry>) -> Option<Seq<char>> {
    match token_value(process, 0) {
        Some(v) => Some(v),
        None => token_value(dotenv, 0),
    }
}

/// Find the token. An empty one is refused, and does not fall back on the
/// dotenv file.
pub fn resolve_discord_token(dotenv_entries: &Vec<EnvEntry>, process_env: &Vec<EnvEntry>) -> (r:
    Result<String, &'static str>)
    ensures
        match chosen_token(dotenv_entries@, process_env@) {
            None => r matches Err(e) && e@
                == "discord token (`DISCORD_TOKEN`) must be set via environment or .env"@,
            Some(v) => if trim(v).len() == 0 {
                r matches Err(e) && e@ == "discord token (`DISCORD_TOKEN`) cannot be empty"@
            } else {
                r matches Ok(token) && token@ == trim(v)
            },
        },
{
    let value = match find_token(process_env) {
        Some(v) => v,
        None => match find_token(dotenv_entries) {
            Some(v) => v,
            None => {
                return Err("discord token (`DISCORD_TOKEN`) must be set via environment or .env");
            },
        },
    };
    let token = trim_str(value.as_str());
    if token.as_str().is_empty() {
        return Err("discord token (`DISCORD_TOKEN`) cannot be empty");
    }
    Ok(token)
}

// ---------------------------------------------------------------------------
// What variables are called
// ---------------------------------------------------------------------------
/// A variable of a section is called as its setting, in capitals, and has no
/// second name.
pub open spec fn named_after_setting(b: BindingModel, section: Seq<char>) -> bool {
    b.section == Some(section) && b.alias is None && lower(b.key) == b.field
}

/// The variables of `runtime` are called after their settings.
proof fn lemma_runtime_variables()
    ensures
        runtime_bindings().len() == 3,
        forall|i: int| 0 <= i < 3 ==> named_after_setting(#[trigger] runtime_bindings()[i], "runtime"@),
{
    reveal_strlit("WORKER_THREADS");
    reveal_strlit("worker_threads");
    assert(lower("WORKER_THREADS"@) =~= "worker_threads"@);
    reveal_strlit("MAX_BLOCKING_THREADS");
    reveal_strlit("max_blocking_threads");
    assert(lower("MAX_BLOCKING_THREADS"@) =~= "max_blocking_threads"@);
    reveal_strlit("THREAD_STACK_SIZE");
    reveal_strlit("thread_stack_size");
    assert(lower("THREAD_STACK_SIZE"@) =~= "thread_stack_size"@);
}

/// The variables of `concurrency` are called after their settings.
proof fn lemma_concurrency_variables()
    ensures
        concurrency_bindings().len() == 5,
        forall|i: int| 0 <= i < 5 ==> named_after_setting(#[trigger] concurrency_bindings()[i], "concurrency"@),
{
    reveal_strlit("DOWNLOAD");
    reveal_strlit("download");
    assert(lower("DOWNLOAD"@) =~= "download"@);
    reveal_strlit("UPLOAD");
    reveal_strlit("upload");
    assert(lower("UPLOAD"@) =~= "upload"@);
    reveal_strlit("TRANSCODE");
    reveal_strlit("transcode");
    assert(lower("TRANSCODE"@) =~= "transcode"@);
    reveal_strlit("YTDLP");
    reveal_strlit("ytdlp");
    assert(lower("YTDLP"@) =~= "ytdlp"@);
    reveal_strlit("PIPELINE");
    reveal_strlit("pipeline");
    assert(lower("PIPELINE"@) =~= "pipeline"@);
}

/// The variables of `http` are called after their settings.
proof fn lemma_http_variables()
    ensures
        http_bindings().len() == 4,
        forall|i: int| 0 <= i < 4 ==> named_after_setting(#[trigger] http_bindings()[i], "http"@),
{
    reveal_strlit("POOL_MAX_IDLE_PER_HOST");
    reveal_strlit("pool_max_idle_per_host");
    assert(lower("POOL_MAX_IDLE_PER_HOST"@) =~= "pool_max_idle_per_host"@);
    reveal_strlit("POOL_IDLE_TIMEOUT_SECS");
    reveal_strlit("pool_idle_timeout_secs");
    assert(lower("POOL_IDLE_TIMEOUT_SECS"@) =~= "pool_idle_timeout_secs"@);
    reveal_strlit("CONNECT_TIMEOUT_SECS");
    reveal_strlit("connect_timeout_secs");
    assert(lower("CONNECT_TIMEOUT_SECS"@) =~= "connect_timeout_secs"@);
    reveal_strlit("TIMEOUT_SECS");
    reveal_strlit("timeout_secs");
    assert(lower("TIMEOUT_SECS"@) =~= "timeout_secs"@);
}

/// The variables of `storage` are called after their settings.
proof fn lemma_storage_variables()
    ensures
        storage_bindings().len() == 11,
        forall|i: int| 0 <= i < 11 ==> named_after_setting(#[trigger] storage_bindings()[i], "storage"@),
{
    reveal_strlit("TEMP_DIR");
    reveal_strlit("temp_dir");
    assert(lower("TEMP_DIR"@) =~= "temp_dir"@);
    reveal_strlit("DEDUP_TTL_HOURS");
    reveal_strlit("dedup_ttl_hours");
    assert(lower("DEDUP_TTL_HOURS"@) =~= "dedup_ttl_hours"@);
    reveal_strlit("DEDUP_CACHE_SIZE");
    reveal_strlit("dedup_cache_size");
    assert(lower("DEDUP_CACHE_SIZE"@) =~= "dedup_cache_size"@);
    reveal_strlit("DEDUP_PERSISTENT");
    reveal_strlit("dedup_persistent");
    assert(lower("DEDUP_PERSISTENT"@) =~= "dedup_persistent"@);
    reveal_strlit("DEDUP_DB_PATH");
    reveal_strlit("dedup_db_path");
    assert(lower("DEDUP_DB_PATH"@) =~= "dedup_db_path"@);
    reveal_strlit("DEDUP_FLUSH_INTERVAL_SECS");
    reveal_strlit("dedup_flush_interval_secs");
    assert(lower("DEDUP_FLUSH_INTERVAL_SECS"@) =~= "dedup_flush_interval_secs"@);
    reveal_strlit("METRICS_DB_PATH");
    reveal_strlit("metrics_db_path");
    assert(lower("METRICS_DB_PATH"@) =~= "metrics_db_path"@);
    reveal_strlit("METRICS_ENABLED");
    reveal_strlit("metrics_enabled");
    assert(lower("METRICS_ENABLED"@) =~= "metrics_enabled"@);
    reveal_strlit("RESOLVER_CACHE_TTL_SECS");
    reveal_strlit("resolver_cache_ttl_secs");
    assert(lower("RESOLVER_CACHE_TTL_SECS"@) =~= "resolver_cache_ttl_secs"@);
    reveal_strlit("RESOLVER_CACHE_SIZE");
    reveal_strlit("resolver_cache_size");
    assert(lower("RESOLVER_CACHE_SIZE"@) =~= "resolver_cache_size"@);
    reveal_strlit("RESOLVER_NEGATIVE_TTL_SECS");
    reveal_strlit("resolver_negative_ttl_secs");
    assert(lower("RESOLVER_NEGATIVE_TTL_SECS"@) =~= "resolver_negative_ttl_secs"@);
}

/// The variables of `transcode` are called after their settings.
proof fn lemma_transcode_variables()
    ensures
        transcode_bindings().len() == 14,
        forall|i: int| 0 <= i < 14 ==> named_after_setting(#[trigger] transcode_bindings()[i], "transcode"@),
{
    reveal_strlit("QUALITY_PRESET");
    reveal_strlit("quality_preset");
    assert(lower("QUALITY_PRESET"@) =~= "quality_preset"@);
    reveal_strlit("HARDWARE_ACCELERATION");
    reveal_strlit("hardware_acceleration");
    assert(lower("HARDWARE_ACCELERATION"@) =~= "hardware_acceleration"@);
    reveal_strlit("FFMPEG_THREADS");
    reveal_strlit("ffmpeg_threads");
    assert(lower("FFMPEG_THREADS"@) =~= "ffmpeg_threads"@);
    reveal_strlit("VAAPI_DEVICE");
    reveal_strlit("vaapi_device");
    assert(lower("VAAPI_DEVICE"@) =~= "vaapi_device"@);
    reveal_strlit("MAX_UPLOAD_BYTES");
    reveal_strlit("max_upload_bytes");
    assert(lower("MAX_UPLOAD_BYTES"@) =~= "max_upload_bytes"@);
    reveal_strlit("CONTAINER_OVERHEAD_RATIO");
    reveal_strlit("container_overhead_ratio");
    assert(lower("CONTAINER_OVERHEAD_RATIO"@) =~= "container_overhead_ratio"@);
    reveal_strlit("VBR_SAFETY_MARGIN");
    reveal_strlit("vbr_safety_margin");
    assert(lower("VBR_SAFETY_MARGIN"@) =~= "vbr_safety_margin"@);
    reveal_strlit("TRANSCODE_TARGET_RATIO");
    reveal_strlit("transcode_target_ratio");
    assert(lower("TRANSCODE_TARGET_RATIO"@) =~= "transcode_target_ratio"@);
    reveal_strlit("SPLIT_TARGET_RATIO");
    reveal_strlit("split_target_ratio");
    assert(lower("SPLIT_TARGET_RATIO"@) =~= "split_target_ratio"@);
    reveal_strlit("AUDIO_VBR_PADDING");
    reveal_strlit("audio_vbr_padding");
    assert(lower("AUDIO_VBR_PADDING"@) =~= "audio_vbr_padding"@);
    reveal_strlit("MIN_BITRATE_KBPS");
    reveal_strlit("min_bitrate_kbps");
    assert(lower("MIN_BITRATE_KBPS"@) =~= "min_bitrate_kbps"@);
    reveal_strlit("MAX_SINGLE_VIDEO_DURATION_SECS");
    reveal_strlit("max_single_video_duration_secs");
    assert(lower("MAX_SINGLE_VIDEO_DURATION_SECS"@) =~= "max_single_video_duration_secs"@);
    reveal_strlit("FFPROBE_TIMEOUT_SECS");
    reveal_strlit("ffprobe_timeout_secs");
    assert(lower("FFPROBE_TIMEOUT_SECS"@) =~= "ffprobe_timeout_secs"@);
    reveal_strlit("FFMPEG_TIMEOUT_SECS");
    reveal_strlit("ffmpeg_timeout_secs");
    assert(lower("FFMPEG_TIMEOUT_SECS"@) =~= "ffmpeg_timeout_secs"@);
}

/// The variables of `pipeline` are called after their settings.
proof fn lemma_pipeline_variables()
    ensures
        pipeline_bindings().len() == 12,
        forall|i: int| 0 <= i < 12 ==> named_after_setting(#[trigger] pipeline_bindings()[i], "pipeline"@),
{
    reveal_strlit("QUEUE_BACKPRESSURE_TIMEOUT_MS");
    reveal_strlit("queue_backpressure_timeout_ms");
    assert(lower("QUEUE_BACKPRESSURE_TIMEOUT_MS"@) =~= "queue_backpressure_timeout_ms"@);
    reveal_strlit("DOWNLOAD_TIMEOUT_SECS");
    reveal_strlit("download_timeout_secs");
    assert(lower("DOWNLOAD_TIMEOUT_SECS"@) =~= "download_timeout_secs"@);
    reveal_strlit("UPLOAD_TIMEOUT_SECS");
    reveal_strlit("upload_timeout_secs");
    assert(lower("UPLOAD_TIMEOUT_SECS"@) =~= "upload_timeout_secs"@);
    reveal_strlit("MIN_DISK_SPACE_BYTES");
    reveal_strlit("min_disk_space_bytes");
    assert(lower("MIN_DISK_SPACE_BYTES"@) =~= "min_disk_space_bytes"@);
    reveal_strlit("MAX_DOWNLOAD_BYTES");
    reveal_strlit("max_download_bytes");
    assert(lower("MAX_DOWNLOAD_BYTES"@) =~= "max_download_bytes"@);
    reveal_strlit("RESOLVER_TIMEOUT_SECS");
    reveal_strlit("resolver_timeout_secs");
    assert(lower("RESOLVER_TIMEOUT_SECS"@) =~= "resolver_timeout_secs"@);
    reveal_strlit("YTDLP_TIMEOUT_SECS");
    reveal_strlit("ytdlp_timeout_secs");
    assert(lower("YTDLP_TIMEOUT_SECS"@) =~= "ytdlp_timeout_secs"@);
    reveal_strlit("USER_RATE_LIMIT_REQUESTS");
    reveal_strlit("user_rate_limit_requests");
    assert(lower("USER_RATE_LIMIT_REQUESTS"@) =~= "user_rate_limit_requests"@);
    reveal_strlit("USER_RATE_LIMIT_WINDOW_SECS");
    reveal_strlit("user_rate_limit_window_secs");
    assert(lower("USER_RATE_LIMIT_WINDOW_SECS"@) =~= "user_rate_limit_window_secs"@);
    reveal_strlit("CHANNEL_RATE_LIMIT_REQUESTS");
    reveal_strlit("channel_rate_limit_requests");
    assert(lower("CHANNEL_RATE_LIMIT_REQUESTS"@) =~= "channel_rate_limit_requests"@);
    reveal_strlit("CHANNEL_RATE_LIMIT_WINDOW_SECS");
    reveal_strlit("channel_rate_limit_window_secs");
    assert(lower("CHANNEL_RATE_LIMIT_WINDOW_SECS"@) =~= "channel_rate_limit_window_secs"@);
    reveal_strlit("PARALLEL_SEGMENT_THRESHOLD");
    reveal_strlit("parallel_segment_threshold");
    assert(lower("PARALLEL_SEGMENT_THRESHOLD"@) =~= "parallel_segment_threshold"@);
}

/// Each variable overrides the setting that it is called after, in the section
/// of that setting; but for the three programs, two of which have a second name.
pub proof fn lemma_variables_are_called_after_settings(i: int)
    requires
        0 <= i < bindings().len(),
    ensures
        bindings().len() == 53,
        i == 0 ==> bindings()[i] == (BindingModel {
            key: "APPLICATION_ID"@,
            alias: None,
            section: None,
            field: "application_id"@,
        }),
        1 <= i < 4 ==> named_after_setting(bindings()[i], "runtime"@),
        4 <= i < 9 ==> named_after_setting(bindings()[i], "concurrency"@),
        9 <= i < 13 ==> named_after_setting(bindings()[i], "http"@),
        13 <= i < 24 ==> named_after_setting(bindings()[i], "storage"@),
        24 <= i < 38 ==> named_after_setting(bindings()[i], "transcode"@),
        38 <= i < 50 ==> named_after_setting(bindings()[i], "pipeline"@),
        50 <= i ==> bindings()[i].section == Some("binaries"@) && bindings()[i].field == seq![
            "ffmpeg"@,
            "ffprobe"@,
            "ytdlp"@,
        ][i - 50] && bindings()[i].key == seq!["FFMPEG"@, "FFPROBE"@, "YTDLP_PATH"@][i - 50]
            && bindings()[i].alias == seq![Some("FFMPEG_PATH"@), Some("FFPROBE_PATH"@), None][i
            - 50],
{
    lemma_runtime_variables();
    lemma_concurrency_variables();
    lemma_http_variables();
    lemma_storage_variables();
    lemma_transcode_variables();
    lemma_pipeline_variables();
    let all = bindings();
    if 1 <= i < 4 {
        assert(all[i] == runtime_bindings()[i - 1]);
    }
    if 4 <= i < 9 {
        assert(all[i] == concurrency_bindings()[i - 4]);
    }
    if 9 <= i < 13 {
        assert(all[i] == http_bindings()[i - 9]);
    }
    if 13 <= i < 24 {
        assert(all[i] == storage_bindings()[i - 13]);
    }
    if 24 <= i < 38 {
        assert(all[i] == transcode_bindings()[i - 24]);
    }
    if 38 <= i < 50 {
        assert(all[i] == pipeline_bindings()[i - 38]);
    }
    if 50 <= i {
        assert(all[i] == binaries_bindings()[i - 50]);
    }
}

/// Of several variables of one name the first counts; a name that none has
/// overrides nothing.
pub proof fn lemma_first_variable_counts(
    all: Seq<BindingModel>,
    key: Seq<char>,
    at: int,
    i: int,
)
    requires
        0 <= i <= at <= all.len(),
        forall|k: int| i <= k < at ==> (#[trigger] all[k]).key != key && all[k].alias != Some(key),
        at < all.len() ==> all[at].key == key || all[at].alias == Some(key),
    ensures
        at == all.len() ==> bound_path(all, key, i) is None,
        at < all.len() && all[at].section is None ==> bound_path(all, key, i) == Some(
            seq![all[at].field],
        ),
        at < all.len() && all[at].section is Some ==> bound_path(all, key, i) == Some(
            seq![all[at].section->0, all[at].field],
        ),
    decreases at - i,
{
    if i < at {
        assert(all[i].key != key && all[i].alias != Some(key));
        lemma_first_variable_counts(all, key, at, i + 1);
    }
}

/// A variable is known by its name behind the prefix of this program, whatever
/// its case; the token is no setting, and other programs' variables are not
/// read.
pub proof fn lemma_variables_carry_the_prefix(name: Seq<char>, other: Seq<char>)
    requires
        name.len() > 0,
        forall|i: int|
            0 <= i < name.len() ==> is_upper(#[trigger] name[i]) || is_digit(name[i]) || name[i]
                == '_',
    ensures
        env_path("AZALEA_"@ + name) == bound_path(bindings(), name, 0),
        env_path("DISCORD_TOKEN"@) is None,
        env_path(Seq::empty()) is None,
        env_path("APPLICATION_ID"@) == Some(seq!["application_id"@]),
        upper(trim(other)) == upper(trim(name)) ==> env_path(other) == env_path(name),
        !"AZALEA_"@.is_prefix_of(upper(trim(other))) && upper(trim(other)) != "APPLICATION_ID"@
            ==> env_path(other) is None,
{
    reveal_strlit("AZALEA_");
    reveal_strlit("DISCORD_TOKEN");
    reveal_strlit("APPLICATION_ID");
    let full = "AZALEA_"@ + name;
    assert(full[0] == 'A');
    assert(is_upper(name[name.len() - 1]) || is_digit(name[name.len() - 1]) || name[name.len() - 1]
        == '_');
    assert(full.last() == name[name.len() - 1]);
    assert(trim(full) == full);
    assert forall|i: int| 0 <= i < full.len() implies upper_char(full[i]) == full[i] by {
        if i >= 7 {
            assert(full[i] == name[i - 7]);
        }
    }
    assert(upper(full) =~= full);
    assert(full.take(7) =~= "AZALEA_"@);
    assert(full.skip(7) =~= name);
    assert("APPLICATION_ID"@[1] == 'P' && full[1] == 'Z');
    assert("DISCORD_TOKEN"@[0] == 'D');
    let token = "DISCORD_TOKEN"@;
    assert(trim(token) == token);
    assert(upper(token) =~= token);
    let id = "APPLICATION_ID"@;
    assert(trim(id) == id);
    assert(upper(id) =~= id);
    assert(id.len() == 14 && token.len() == 13);
    let none = Seq::<char>::empty();
    assert(trim(none) =~= none);
    assert(upper(none) =~= none);
}

/// Numbers are numbers, signed where they fit, words are truth values in either
/// case, and all else is text without the white space around it.
pub proof fn lemma_values_are_read_as_written(scalar: EnvScalar, raw: Seq<char>, n: nat)
    requires
        is_scalar(scalar, raw),
    ensures
        trim(raw) == decimal(n) && n <= i64::MAX ==> scalar == (EnvScalar::Signed {
            value: n as i64,
        }),
        trim(raw) == decimal(n) && i64::MAX < n <= u64::MAX ==> scalar == (EnvScalar::Unsigned {
            value: n as u64,
        }),
        scalar == (EnvScalar::Bool { value: true }) <==> lower(trim(raw)) == "true"@,
        scalar == (EnvScalar::Bool { value: false }) <==> lower(trim(raw)) == "false"@,
        scalar matches EnvScalar::Text { text } ==> text@ == trim(raw) && !is_float_text(
            trim(raw),
        ),
        scalar matches EnvScalar::Fraction { text } ==> text@ == trim(raw) && is_float_text(
            trim(raw),
        ),
{
    reveal_strlit("true");
    reveal_strlit("false");
    assert("true"@.len() == 4 && "false"@.len() == 5);
    assert("true"@[0] == 't' && "false"@[0] == 'f');
    lemma_decimal_value(n);
    lemma_decimal_roundtrip(n, n);
    let d = decimal(n);
    assert(is_digit(d[0]));
    assert(lower(d)[0] == d[0]);
}

/// The value that was given last counts, and a later variable of another
/// setting changes nothing.
pub proof fn lemma_last_value_counts(
    entries: Seq<EnvEntry>,
    path: Seq<Seq<char>>,
    at: int,
    n: int,
)
    requires
        -1 <= at < n <= entries.len(),
        at >= 0 ==> env_path(entries[at].key@) == Some(path),
        forall|k: int| at < k < n ==> env_path((#[trigger] entries[k]).key@) != Some(path),
    ensures
        at >= 0 ==> last_value(entries, path, n) == Some(entries[at].value@),
        at < 0 ==> last_value(entries, path, n) is None,
    decreases n,
{
    if n - 1 > at {
        assert(env_path(entries[n - 1].key@) != Some(path));
        lemma_last_value_counts(entries, path, at, n - 1);
    }
}

/// What the environment of the process says goes before what a file says.
pub proof fn lemma_process_goes_before_file(
    dotenv: Seq<EnvEntry>,
    process: Seq<EnvEntry>,
    path: Seq<Seq<char>>,
)
    ensures
        last_value(process, path, process.len() as int) is Some ==> chosen_value(
            dotenv,
            process,
            path,
        ) == last_value(process, path, process.len() as int),
        last_value(process, path, process.len() as int) is None ==> chosen_value(
            dotenv,
            process,
            path,
        ) == last_value(dotenv, path, dotenv.len() as int),
        token_value(process, 0) is Some ==> chosen_token(dotenv, process) == token_value(process, 0),
        token_value(process, 0) is None ==> chosen_token(dotenv, process) == token_value(dotenv, 0),
{
}

/// The token is the first variable of its name, whatever its case.
pub proof fn lemma_first_token_counts(entries: Seq<EnvEntry>, at: int, i: int)
    requires
        0 <= i <= at <= entries.len(),
        forall|k: int| i <= k < at ==> lower((#[trigger] entries[k]).key@) != "discord_token"@,
        at < entries.len() ==> lower(entries[at].key@) == "discord_token"@,
    ensures
        at < entries.len() ==> token_value(entries, i) == Some(entries[at].value@),
        at == entries.len() ==> token_value(entries, i) is None,
    decreases at - i,
{
    reveal_strlit("DISCORD_TOKEN");
    reveal_strlit("discord_token");
    assert(lower("DISCORD_TOKEN"@) =~= "discord_token"@);
    if i < at {
        assert(lower(entries[i].key@) != "discord_token"@);
        lemma_first_token_counts(entries, at, i + 1);
    }
}

/// Quotes around a value are taken off, once and only in pairs.
pub proof fn lemma_quotes_are_taken_off(value: Seq<char>)
    ensures
        unquoted(seq!['"'] + value + seq!['"']) == value,
        unquoted(seq!['\''] + value + seq!['\'']) == value,
        value.len() == 0 || (value[0] != '"' && value[0] != '\'') ==> unquoted(value) == value,
        value.len() > 0 && value[0] != value.last() ==> unquoted(value) == value,
{
    let a = seq!['"'] + value + seq!['"'];
    assert(a.subrange(1, a.len() - 1) =~= value);
    let b = seq!['\''] + value + seq!['\''];
    assert(b.subrange(1, b.len() - 1) =~= value);
}

/// A line of a name, an equals sign and a value is an entry of these, with or
/// without `export` before it.
pub proof fn lemma_dotenv_lines_are_entries(key: Seq<char>, value: Seq<char>)
    requires
        key.len() > 0,
        !key.contains('='),
        !key.contains(' '),
        key[0] != '#',
        trim(key) == key,
        !is_white(key[0]),
        value.len() > 0,
        trim(value) == value,
        !is_white(value.last()),
    ensures
        dotenv_line(key + seq!['='] + value) == (DotenvLine::Entry { key, value: unquoted(value) }),
        dotenv_line("export "@ + (key + seq!['='] + value)) == dotenv_line(key + seq!['='] + value),
{
    reveal_strlit("export ");
    let e = "export "@;
    let line = key + seq!['='] + value;
    assert(line[0] == key[0]);
    assert(line.last() == value.last());
    assert(trim(line) == line);
    if starts_with(line, e) {
        assert(line.take(7)[6] == e[6]);
        assert forall|k: int| 0 <= k < 7 implies line[k] == e[k] by {
            assert(line.take(7)[k] == line[k]);
        }
        if key.len() >= 7 {
            assert(key[6] == ' ');
        } else {
            assert(line[key.len() as int] == '=');
            assert(e[key.len() as int] == '=');
        }
    }
    assert(without_export(line) == line);
    lemma_first_part(line, '=', key, value);
    let long = e + line;
    assert(long[0] == 'e');
    assert(long.last() == line.last());
    assert(trim(long) == long);
    assert(long.take(7) =~= e);
    assert(long.skip(7) =~= line);
}

/// Settings are accepted exactly where there is an application, threads and
/// stack enough, and the engine's own settings are.
pub proof fn lemma_accepted_settings(settings: AppConfig)
    ensures
        settings.problem() is None <==> settings.application_id.0 != 0
            && settings.runtime.worker_threads >= 1 && settings.runtime.max_blocking_threads >= 1
            && settings.runtime.thread_stack_size >= 1_048_576 && settings.engine.problem() is None,
{
}

/// A bad line is reported by its number, counted from one, and by what it
/// lacks; all lines before it are good.
pub proof fn lemma_bad_lines_are_reported_by_number(e: Seq<char>, all: Seq<Seq<char>>, n: int)
    requires
        is_dotenv_error(e, all, n),
    ensures
        dotenv_line(all[n]) is NoEquals ==> e == "invalid .env entry at line "@ + decimal(
            (n + 1) as nat,
        ),
        dotenv_line(all[n]) is NoKey ==> e == "invalid .env key at line "@ + decimal(
            (n + 1) as nat,
        ),
        dotenv_line(all[n]) is NoEquals || dotenv_line(all[n]) is NoKey,
        dotenv_entries(all, n) is Some && dotenv_entries(all, n + 1) is None,
{
}

/// Each override names its setting once, with the value that was given last.
pub proof fn lemma_overrides_hold_the_last_values(
    overrides: Seq<Override>,
    entries: Seq<EnvEntry>,
    n: int,
    i: int,
)
    requires
        overrides_of(overrides, entries, n),
        0 <= i < overrides.len(),
    ensures
        overrides.len() == named_paths(entries, n).len(),
        views(overrides[i].path@) == named_paths(entries, n)[i],
        last_value(entries, views(overrides[i].path@), n) matches Some(raw) && is_scalar(
            overrides[i].value,
            raw,
        ),
{
    assert(views(overrides[i].path@) == named_paths(entries, n)[i]);
}

} // verus!
