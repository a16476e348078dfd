//! Engine settings, permits and the encoder runtime.

use azalea::concurrency::Permits;
use azalea::config::{
    ConcurrencySettings, EngineSettings, FloatBits, HardwareAcceleration, QualityPreset,
    TranscodeSettings,
};
use azalea::engine::TranscodeRuntime;

fn float(value: f64) -> FloatBits {
    FloatBits::from_bits(value.to_bits())
}

fn rejected(config: &EngineSettings) -> String {
    match config.validate() {
        Ok(()) => panic!("settings must be rejected"),
        Err(message) => message,
    }
}

#[test]
fn test_default_config_validates() {
    let config = EngineSettings::default();
    assert!(config.validate().is_ok());
}

#[test]
fn test_quality_presets() {
    assert_eq!(QualityPreset::Fast.crf(), 28);
    assert_eq!(QualityPreset::Balanced.crf(), 23);
    assert_eq!(QualityPreset::Quality.crf(), 18);
    assert_eq!(QualityPreset::Size.crf(), 32);

    assert_eq!(QualityPreset::Fast.ffmpeg_preset(), "ultrafast");
    assert_eq!(QualityPreset::Balanced.ffmpeg_preset(), "superfast");
    assert_eq!(QualityPreset::Quality.ffmpeg_preset(), "fast");
    assert_eq!(QualityPreset::Size.ffmpeg_preset(), "veryfast");
}

#[test]
fn test_ffmpeg_threads() {
    let cfg = TranscodeSettings::default();
    for cpus in [1, 2, 4, 5, 8, 16, 64] {
        let threads = cfg.effective_ffmpeg_threads(2, cpus);
        assert!(threads >= 2);
    }
}

#[test]
fn encoder_threads_are_an_even_share() {
    let mut cfg = TranscodeSettings::default();
    assert_eq!(cfg.effective_ffmpeg_threads(2, 4), 2);
    assert_eq!(cfg.effective_ffmpeg_threads(2, 16), 8);
    assert_eq!(cfg.effective_ffmpeg_threads(8, 8), 2);
    assert_eq!(cfg.effective_ffmpeg_threads(0, 12), 12);
    cfg.ffmpeg_threads = 7;
    assert_eq!(cfg.effective_ffmpeg_threads(2, 16), 7);
}

#[test]
fn validate_rejects_zero_concurrency() {
    let mut config = EngineSettings::default();
    config.concurrency.pipeline = 0;
    assert!(rejected(&config).contains("concurrency"));
}

#[test]
fn validate_rejects_invalid_transcode_limits() {
    let mut config = EngineSettings::default();
    config.transcode.max_upload_bytes = 51 * 1024 * 1024;
    assert!(rejected(&config).contains("50 MiB limit"));

    let mut config = EngineSettings::default();
    config.transcode.container_overhead_ratio = float(0.0);
    assert!(rejected(&config).contains("container_overhead_ratio"));
}

#[test]
fn validate_rejects_out_of_range_timeouts() {
    let mut config = EngineSettings::default();
    config.http.connect_timeout_secs = 0;
    assert!(rejected(&config).contains("connect_timeout_secs"));

    let mut config = EngineSettings::default();
    config.pipeline.upload_timeout_secs = 3601;
    assert!(rejected(&config).contains("upload_timeout_secs"));
}

#[test]
fn ratios_are_compared_as_numbers() {
    for good in [f64::MIN_POSITIVE, 5e-324, 0.02, 0.5, 1.0] {
        assert!(float(good).is_in_unit(), "{good}");
    }
    for bad in [0.0, -0.0, -0.5, 1.0000000000000002, 2.0, f64::INFINITY, f64::NAN] {
        assert!(!float(bad).is_in_unit(), "{bad}");
    }
    for good in [5e-324, 1.0, 1.1, f64::MAX] {
        assert!(float(good).is_positive_finite(), "{good}");
    }
    for bad in [0.0, -0.0, -1.0, f64::INFINITY, f64::NEG_INFINITY, f64::NAN] {
        assert!(!float(bad).is_positive_finite(), "{bad}");
    }
}

#[test]
fn default_ratios_are_the_documented_numbers() {
    let cfg = TranscodeSettings::default();
    assert_eq!(f64::from_bits(cfg.container_overhead_ratio.bits), 0.03);
    assert_eq!(f64::from_bits(cfg.vbr_safety_margin.bits), 0.05);
    assert_eq!(f64::from_bits(cfg.transcode_target_ratio.bits), 0.85);
    assert_eq!(f64::from_bits(cfg.split_target_ratio.bits), 0.8);
    assert_eq!(f64::from_bits(cfg.audio_vbr_padding.bits), 1.1);
}

#[test]
fn upload_timeout_uses_pipeline_setting() {
    let mut config = EngineSettings::default();
    config.pipeline.upload_timeout_secs = 321;
    assert_eq!(config.upload_timeout(), 321);
}

#[test]
fn zero_config_values_are_clamped_to_one() {
    let permits = Permits::new(&ConcurrencySettings {
        download: 0,
        upload: 0,
        transcode: 0,
        ytdlp: 0,
        pipeline: 0,
    });

    assert_eq!(permits.download, 1);
    assert_eq!(permits.upload, 1);
    assert_eq!(permits.transcode, 1);
    assert_eq!(permits.ytdlp, 1);
    assert_eq!(permits.pipeline, 1);
}

#[test]
fn configured_values_are_preserved() {
    let permits = Permits::new(&ConcurrencySettings {
        download: 3,
        upload: 2,
        transcode: 4,
        ytdlp: 5,
        pipeline: 6,
    });

    assert_eq!(permits.download, 3);
    assert_eq!(permits.upload, 2);
    assert_eq!(permits.transcode, 4);
    assert_eq!(permits.ytdlp, 5);
    assert_eq!(permits.pipeline, 6);
}

#[test]
fn hardware_fallback_latches_once() {
    let mut runtime = TranscodeRuntime::new(HardwareAcceleration::Vaapi);

    assert_eq!(runtime.configured_backend(), HardwareAcceleration::Vaapi);
    assert_eq!(runtime.active_backend(), HardwareAcceleration::Vaapi);
    assert!(!runtime.software_fallback_active());

    assert!(runtime.activate_software_fallback());
    assert_eq!(runtime.active_backend(), HardwareAcceleration::Software);
    assert!(runtime.software_fallback_active());
    assert_eq!(runtime.fallback_transitions(), 1);

    assert!(!runtime.activate_software_fallback());
    assert_eq!(runtime.fallback_transitions(), 1);
}

#[test]
fn software_backend_never_falls_back() {
    let mut runtime = TranscodeRuntime::new(HardwareAcceleration::Software);
    assert!(!runtime.activate_software_fallback());
    assert!(!runtime.software_fallback_active());
    assert_eq!(runtime.fallback_transitions(), 0);
}

#[test]
fn effective_settings_follow_runtime_backend() {
    let mut runtime = TranscodeRuntime::new(HardwareAcceleration::Nvenc);
    let settings = TranscodeSettings {
        hardware_acceleration: HardwareAcceleration::Nvenc,
        ..TranscodeSettings::default()
    };

    runtime.activate_software_fallback();
    let effective = runtime.effective_settings(&settings);

    assert_eq!(effective.hardware_acceleration, HardwareAcceleration::Software);
}

#[test]
fn encode_averages_are_kept_apart() {
    let mut runtime = TranscodeRuntime::new(HardwareAcceleration::Qsv);
    runtime.record_encode(true, 100);
    runtime.record_encode(true, 300);
    runtime.record_encode(false, 50);
    assert_eq!(runtime.hw_encodes.count, 2);
    assert_eq!(runtime.hw_encodes.average_ms(), 200);
    assert_eq!(runtime.sw_encodes.count, 1);
    assert_eq!(runtime.sw_encodes.average_ms(), 50);
    assert_eq!(TranscodeRuntime::new(HardwareAcceleration::Qsv).sw_encodes.average_ms(), 0);
}
