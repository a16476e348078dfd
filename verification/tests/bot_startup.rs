//! Settings, start-up checks, sessions and the probe.

use azalea::bot::config::{
    build_env_overrides, config_path_from_env_key, env_bindings, merge_env_overrides,
    parse_dotenv_contents, parse_env_scalar, resolve_discord_token, AppConfig, DiscordToken, EnvEntry, EnvScalar,
};
use azalea::bot::ids::ApplicationId;
use azalea::bot::probe_cli::{
    keep_context, kept_file_name, parse_single_url, Args, ArgsResult, ProgressEvent, USAGE,
};
use azalea::bot::resume::{
    restore, should_save, temp_file_name, SessionInfo, SessionState, BACKUP_FILE, INFO_FILE,
};
use azalea::bot::startup::{
    hwaccel_backend, lists_encoder, lists_hwaccel, not_on_path_error, not_writable_error,
    parse_version_from_summary, probe_cleanup_error, raised_fd_limit, resolve_binary_path,
    verify_dependency, version_summary, writable_probe_name, BinaryLookup, DependencyCheck,
    ParsedVersion, VersionWarning,
};
use azalea::config::HardwareAcceleration;
use azalea::pipeline::types::Progress;
use std::collections::HashSet;

fn entry(key: &str, value: &str) -> EnvEntry {
    EnvEntry { key: key.to_string(), value: value.to_string() }
}

fn config() -> AppConfig {
    AppConfig { application_id: ApplicationId::new(123456789), ..AppConfig::for_cpus(4) }
}

#[test]
fn config_test_default_config_validates() {
    assert!(config().validate().is_ok());
}

#[test]
fn settings_of_the_bot_are_checked() {
    let problem = |change: fn(&mut AppConfig)| {
        let mut config = config();
        change(&mut config);
        config.validate().expect_err("must be refused")
    };
    assert_eq!(
        AppConfig::for_cpus(4).validate(),
        Err("application_id must be set (via config, APPLICATION_ID, or AZALEA_APPLICATION_ID)"
            .to_string())
    );
    assert_eq!(
        problem(|c| c.runtime.worker_threads = 0),
        "runtime.worker_threads must be at least 1"
    );
    assert_eq!(
        problem(|c| c.runtime.max_blocking_threads = 0),
        "runtime.max_blocking_threads must be at least 1"
    );
    assert_eq!(
        problem(|c| c.runtime.thread_stack_size = 1024 * 1024 - 1),
        "runtime.thread_stack_size must be at least 1 MiB"
    );
    assert_eq!(
        problem(|c| c.engine.concurrency.upload = 0),
        "all concurrency values must be at least 1"
    );
    assert_eq!(config().runtime.max_blocking_threads, 16);
    assert_eq!(config().upload_timeout(), 120);
    let token = DiscordToken::new("secret".to_string());
    assert_eq!(token.as_str(), "secret");
    assert_eq!(token.into_inner(), "secret");
}

#[test]
fn parse_dotenv_rejects_invalid_line() {
    let err = parse_dotenv_contents("NO_EQUALS_LINE").expect_err("expected dotenv parse error");
    assert!(err.contains("invalid .env entry"));
}

#[test]
fn dotenv_lines_are_read() {
    let entries = parse_dotenv_contents(
        "# comment\n\nexport A = 1 \nB='x y'\r\n  C=\"q\" \nD=\"\nE=a=b\nF='\nG=",
    )
    .expect("valid file");
    let pairs: Vec<(&str, &str)> =
        entries.iter().map(|e| (e.key.as_str(), e.value.as_str())).collect();
    assert_eq!(
        pairs,
        [("A", "1"), ("B", "x y"), ("C", "q"), ("D", "\""), ("E", "a=b"), ("F", "'"), ("G", "")]
    );
    assert_eq!(
        parse_dotenv_contents("A=1\n\n = 2").expect_err("no key"),
        "invalid .env key at line 3"
    );
    assert_eq!(
        parse_dotenv_contents("A=1\nbad\n=").expect_err("no equals"),
        "invalid .env entry at line 2"
    );
}

#[test]
fn parse_env_scalar_handles_common_types() {
    assert!(matches!(parse_env_scalar("true"), EnvScalar::Bool { value: true }));
    assert!(matches!(parse_env_scalar("42"), EnvScalar::Signed { value: 42 }));
    assert!(matches!(
        parse_env_scalar("3.5"),
        EnvScalar::Fraction { text } if text.parse::<f64>() == Ok(3.5)
    ));
    assert!(matches!(parse_env_scalar("hello"), EnvScalar::Text { text } if text == "hello"));
    assert!(matches!(parse_env_scalar(" FALSE "), EnvScalar::Bool { value: false }));
    assert!(matches!(parse_env_scalar("-7"), EnvScalar::Signed { value: -7 }));
    assert!(matches!(
        parse_env_scalar("18446744073709551615"),
        EnvScalar::Unsigned { value: u64::MAX }
    ));
}

#[test]
fn config_path_maps_flat_keys() {
    let path = |key: &str| config_path_from_env_key(key);
    assert_eq!(
        path("AZALEA_MAX_DOWNLOAD_BYTES"),
        Some(vec!["pipeline".to_string(), "max_download_bytes".to_string()])
    );
    assert_eq!(
        path("AZALEA_WORKER_THREADS"),
        Some(vec!["runtime".to_string(), "worker_threads".to_string()])
    );
    assert_eq!(
        path("AZALEA_HARDWARE_ACCELERATION"),
        Some(vec!["transcode".to_string(), "hardware_acceleration".to_string()])
    );
    assert_eq!(path("AZALEA_FFMPEG"), Some(vec!["binaries".to_string(), "ffmpeg".to_string()]));
    assert_eq!(path("AZALEA_YTDLP_PATH"), Some(vec!["binaries".to_string(), "ytdlp".to_string()]));
    assert_eq!(path("AZALEA_PIPELINE__MAX_DOWNLOAD_BYTES"), None);
    assert_eq!(path("DISCORD_TOKEN"), None);
}

#[test]
fn env_registry_keys_are_unique() {
    let mut keys = HashSet::new();
    for binding in env_bindings() {
        assert!(keys.insert(binding.key), "duplicate env key {}", binding.key);
        if let Some(alias) = binding.alias {
            assert!(keys.insert(alias), "duplicate env alias {alias}");
        }
        assert!(binding.matches(binding.key));
    }
}

#[test]
fn env_registry_aliases_resolve() {
    assert_eq!(
        config_path_from_env_key("AZALEA_FFMPEG_PATH"),
        Some(vec!["binaries".to_string(), "ffmpeg".to_string()])
    );
    assert_eq!(
        config_path_from_env_key("AZALEA_FFPROBE_PATH"),
        Some(vec!["binaries".to_string(), "ffprobe".to_string()])
    );
}

#[test]
fn app_id_aliases_always_map_to_application_id() {
    for key in ["APPLICATION_ID", "AZALEA_APPLICATION_ID", " azalea_application_id "] {
        assert_eq!(config_path_from_env_key(key), Some(vec!["application_id".to_string()]));
    }
}

#[test]
fn overrides_keep_the_order_of_variables() {
    let overrides = build_env_overrides(&vec![
        entry("PATH", "/bin"),
        entry("APPLICATION_ID", "5"),
        entry("azalea_metrics_enabled", "false"),
    ]);
    assert_eq!(overrides.len(), 2);
    assert_eq!(overrides[0].path, vec!["application_id"]);
    assert_eq!(overrides[1].path, vec!["storage", "metrics_enabled"]);
    assert!(matches!(overrides[1].value, EnvScalar::Bool { value: false }));
}

#[test]
fn later_overrides_replace_earlier_ones() {
    let overrides = build_env_overrides(&vec![
        entry("AZALEA_MAX_DOWNLOAD_BYTES", "1"),
        entry("APPLICATION_ID", "2"),
        entry("azalea_max_download_bytes", "3"),
        entry("AZALEA_APPLICATION_ID", "4"),
    ]);
    assert_eq!(overrides.len(), 2);
    assert_eq!(overrides[0].path, vec!["pipeline", "max_download_bytes"]);
    assert!(matches!(overrides[0].value, EnvScalar::Signed { value: 3 }));
    assert_eq!(overrides[1].path, vec!["application_id"]);
    assert!(matches!(overrides[1].value, EnvScalar::Signed { value: 4 }));
}

#[test]
fn the_process_environment_overrides_the_dotenv_file() {
    let dotenv = vec![
        entry("APPLICATION_ID", "1"),
        entry("AZALEA_METRICS_ENABLED", "true"),
        entry("APPLICATION_ID", "2"),
    ];
    let process = vec![
        entry("AZALEA_MAX_DOWNLOAD_BYTES", "700"),
        entry("AZALEA_METRICS_ENABLED", "false"),
    ];
    let merged = merge_env_overrides(&dotenv, &process);
    assert_eq!(merged.len(), 3);
    assert_eq!(merged[0].path, vec!["application_id"]);
    assert!(matches!(merged[0].value, EnvScalar::Signed { value: 2 }));
    assert_eq!(merged[1].path, vec!["storage", "metrics_enabled"]);
    assert!(matches!(merged[1].value, EnvScalar::Bool { value: false }));
    assert_eq!(merged[2].path, vec!["pipeline", "max_download_bytes"]);
    assert!(matches!(merged[2].value, EnvScalar::Signed { value: 700 }));
    assert!(merge_env_overrides(&vec![], &vec![entry("PATH", "/bin")]).is_empty());
}

#[test]
fn resolve_discord_token_rejects_empty_values() {
    let err = resolve_discord_token(
        &vec![entry("DISCORD_TOKEN", "dotenv-token")],
        &vec![entry("DISCORD_TOKEN", "   ")],
    )
    .expect_err("empty process token must be rejected");
    assert!(err.contains("cannot be empty"));
}

#[test]
fn tokens_come_from_the_environment_first() {
    let env = || vec![entry("x", "y"), entry("discord_token", " env-token ")];
    let dotenv = || vec![entry("DISCORD_TOKEN", "dotenv-token")];
    assert_eq!(resolve_discord_token(&dotenv(), &env()), Ok("env-token".to_string()));
    assert_eq!(resolve_discord_token(&dotenv(), &vec![]), Ok("dotenv-token".to_string()));
    assert_eq!(
        resolve_discord_token(&vec![], &vec![]),
        Err("discord token (`DISCORD_TOKEN`) must be set via environment or .env")
    );
}

#[test]
fn parse_version_from_summary_extracts_ffmpeg_semver() {
    let parsed = parse_version_from_summary("ffmpeg version 6.1.2-1ubuntu1")
        .expect("ffmpeg summary should parse");
    assert_eq!(parsed, ParsedVersion::new(6, 1, 2));
}

#[test]
fn parse_version_from_summary_handles_prefixed_versions() {
    let parsed = parse_version_from_summary("ffprobe version n7.0-static")
        .expect("ffprobe summary should parse");
    assert_eq!(parsed, ParsedVersion::new(7, 0, 0));
}

#[test]
fn versions_are_found_elsewhere() {
    assert_eq!(parse_version_from_summary("2024.08.06"), Some(ParsedVersion::new(2024, 8, 6)));
    assert_eq!(parse_version_from_summary("tool v5 version"), Some(ParsedVersion::new(5, 0, 0)));
    assert_eq!(parse_version_from_summary("version none 7"), None);
    assert_eq!(parse_version_from_summary("no digits"), None);
    assert_eq!(
        parse_version_from_summary("99999999999999999999999.1"),
        Some(ParsedVersion::new(u64::MAX, 1, 0))
    );
    assert_eq!(ParsedVersion::new(1, 2, 3).message(), "1.2.3");
    assert!(ParsedVersion::new(5, 9, 9).is_below(ParsedVersion::min_tested()));
    assert!(!ParsedVersion::new(6, 0, 0).is_below(ParsedVersion::min_tested()));
    assert!(ParsedVersion::new(6, 0, 1).is_below(ParsedVersion::new(6, 1, 0)));
    assert_eq!(version_summary("\n first \nsecond", "err"), "first");
}

#[test]
fn dependencies_are_judged() {
    let ran = |success: bool, out: &str| DependencyCheck::Ran {
        success,
        stdout: out.as_bytes().to_vec(),
        stderr: b"bad flag".to_vec(),
    };
    let least = Some(ParsedVersion::min_tested());
    let report = verify_dependency("ffmpeg", &ran(true, "ffmpeg version 5.1"), least).unwrap();
    assert_eq!(report.version, "ffmpeg version 5.1");
    assert_eq!(
        report.warning,
        Some(VersionWarning::TooOld { found: ParsedVersion::new(5, 1, 0) })
    );
    assert_eq!(
        verify_dependency("ffmpeg", &ran(true, "nightly"), least).unwrap().warning,
        Some(VersionWarning::Unknown)
    );
    assert_eq!(verify_dependency("yt-dlp", &ran(true, "x"), None).unwrap().warning, None);
    let error = |check: DependencyCheck| verify_dependency("ffmpeg", &check, least).unwrap_err();
    assert_eq!(error(ran(false, "")), "dependency 'ffmpeg' check failed: bad flag");
    assert_eq!(error(DependencyCheck::Missing), "required dependency 'ffmpeg' is missing");
    assert_eq!(
        error(DependencyCheck::Failed { cause: "denied".to_string() }),
        "failed to execute dependency 'ffmpeg': denied"
    );
    assert_eq!(error(DependencyCheck::TimedOut), "dependency 'ffmpeg' check timed out");
}

#[test]
fn accelerators_are_looked_up_in_listings() {
    let encoders = " V....D libx264   H.264\n V....D h264_nvenc  NVENC";
    assert!(lists_encoder(encoders, "h264_nvenc"));
    assert!(!lists_encoder(encoders, "nvenc"));
    assert!(lists_hwaccel("Hardware acceleration methods:\n  cuda \nvaapi\n", "cuda"));
    assert!(!lists_hwaccel("cuda vaapi", "cuda"));
    assert_eq!(hwaccel_backend(HardwareAcceleration::Nvenc), Some("cuda"));
    assert_eq!(hwaccel_backend(HardwareAcceleration::Vaapi), Some("vaapi"));
    assert_eq!(hwaccel_backend(HardwareAcceleration::VideoToolbox), Some("videotoolbox"));
    assert_eq!(hwaccel_backend(HardwareAcceleration::Software), None);
}

#[test]
fn resolve_binary_path_rejects_missing_explicit_paths() {
    match resolve_binary_path("./definitely-missing-binary", "test-binary", false, 2, false) {
        BinaryLookup::Failed { message } => assert!(message.contains("does not exist")),
        other => panic!("missing explicit path should fail: {other:?}"),
    }
}

#[test]
fn resolve_binary_path_accepts_existing_explicit_paths() {
    assert!(matches!(
        resolve_binary_path("/tmp/bin-path", "temp-binary", true, 3, true),
        BinaryLookup::UsePath
    ));
}

#[test]
fn bare_names_are_searched_for() {
    assert!(matches!(
        resolve_binary_path("ffmpeg", "ffmpeg", false, 1, false),
        BinaryLookup::Search
    ));
    assert!(matches!(
        resolve_binary_path("", "ffmpeg", false, 0, false),
        BinaryLookup::Failed { message } if message == "ffmpeg path is empty"
    ));
    assert_eq!(not_on_path_error("yt-dlp"), "yt-dlp not found on PATH");
}

#[test]
fn validate_temp_dir_writable_reports_clear_diagnostic() {
    let dir = "/tmp/azalea-missing-writable-dir";
    let probe = writable_probe_name(12, 34);
    assert_eq!(probe, ".azalea-writable-12-34.tmp");
    let message = not_writable_error(dir, &format!("{dir}/{probe}"), "No such file");
    assert!(message.contains("is not writable"));
    assert!(message.contains(dir));
    assert_eq!(
        probe_cleanup_error("d", "p", "c"),
        "temp dir 'd' failed writability probe cleanup for 'p': c"
    );
}

#[test]
fn file_limits_are_raised_to_a_bound() {
    assert_eq!(raised_fd_limit(1_024, 4_096), Some(4_096));
    assert_eq!(raised_fd_limit(1_024, u64::MAX), Some(65_536));
    assert_eq!(raised_fd_limit(65_536, u64::MAX), None);
    assert_eq!(raised_fd_limit(4_096, 4_096), None);
}

fn session(shard_id: u32, shard_total: u32, url: Option<&str>) -> SessionInfo {
    SessionInfo {
        shard_id,
        shard_total,
        resume_url: url.map(|u| u.to_string()),
        session: None,
    }
}

#[test]
fn sessions_return_to_their_shards() {
    let info = vec![
        session(0, 2, Some("a")),
        session(1, 3, Some("b")),
        session(1, 2, None),
        session(1, 2, Some("c")),
    ];
    assert!(should_save(&info));
    let plan = restore(&info, 2);
    assert_eq!(plan.sessions, vec![Some(0), Some(2)]);
    assert!(plan.resumed);
    let plan = restore(&info, 4);
    assert_eq!(plan.sessions, vec![None; 4]);
    assert!(!plan.resumed);
    assert!(!should_save(&vec![session(0, 1, None)]));
    let with_session = SessionInfo {
        session: Some(SessionState { id: "s".to_string(), sequence: 1 }),
        ..session(0, 1, None)
    };
    assert!(should_save(&vec![with_session]));
    assert_eq!(temp_file_name(7), format!("{INFO_FILE}.7.tmp"));
    assert_eq!(BACKUP_FILE, format!("{INFO_FILE}.bak"));
}

fn probe_args(list: &[&str]) -> ArgsResult {
    Args::parse(&list.iter().map(|s| s.to_string()).collect())
}

#[test]
fn probe_arguments_are_read() {
    match probe_args(&["--compact", "url", "--keep-output", "dir"]) {
        ArgsResult::Run { args } => {
            assert_eq!(args.url, "url");
            assert_eq!(args.keep_output_dir.as_deref(), Some("dir"));
            assert!(args.compact);
        }
        other => panic!("unexpected result: {other:?}"),
    }
    let failure = |list: &[&str]| match probe_args(list) {
        ArgsResult::Failed { message } => message,
        other => panic!("unexpected result: {other:?}"),
    };
    assert_eq!(failure(&[]), USAGE);
    assert_eq!(failure(&["a", "b"]), USAGE);
    assert_eq!(failure(&["--keep-output"]), "--keep-output requires a directory");
    assert_eq!(failure(&["-x"]), "unknown option: -x");
    assert!(matches!(probe_args(&["a", "-h"]), ArgsResult::Help));
}

#[test]
fn probe_input_holds_one_link() {
    assert_eq!(
        parse_single_url("x").expect_err("no link"),
        "probe input must contain one supported Twitter/X URL"
    );
    assert_eq!(
        parse_single_url("https://x.com/a/status/1 https://x.com/a/status/1")
            .expect_err("two links"),
        "probe input must contain exactly one Twitter/X URL"
    );
    assert_eq!(parse_single_url("https://x.com/a/status/1").unwrap().tweet_id.0, 1);
    assert_eq!(kept_file_name(5, 2, Some("webm")), "azalea-probe-5-part-2.webm");
    assert_eq!(kept_file_name(5, 1, Some("")), "azalea-probe-5-part-1.bin");
    assert_eq!(kept_file_name(5, 1, None), "azalea-probe-5-part-1.bin");
    assert_eq!(keep_context("a", "b"), "failed to copy probe output a to b");
}

#[test]
fn probe_progress_is_logged() {
    let event = ProgressEvent::from_progress(9, Progress::Transcoding(1, 2));
    assert_eq!((event.elapsed_ms, event.stage), (9, "transcoding"));
    assert_eq!((event.done, event.total), (Some(1), Some(2)));
    assert_eq!(event.message, Progress::Transcoding(1, 2).message());
    let event = ProgressEvent::from_progress(0, Progress::Resolving);
    assert_eq!((event.stage, event.done, event.total), ("resolving", None, None));
}
