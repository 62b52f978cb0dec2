use dictatord::config::{
    parse_bool, parse_hex_rgb, parse_suppression_level, Applied, Config, ConfigError, DecimalSetting,
    SuppressionLevel, default_noise_suppression, default_suppression_level,
};
use dictatord::number::IntErrorKind;

#[test]
fn defaults() {
    let c = Config::default();
    assert_eq!(c.hotkey.key, "Super+D");
    assert_eq!(c.hotkey.mode, "both");
    assert_eq!(c.audio.device, "default");
    assert_eq!(c.audio.sample_rate, 16000);
    assert_eq!(c.audio.pre_roll_ms, 2000);
    assert_eq!(c.audio.silence_timeout_ms, 600);
    assert!(c.audio.noise_suppression);
    assert_eq!(c.audio.suppression_level, "moderate");
    assert_eq!(c.asr.model, "tiny");
    assert_eq!(c.asr.model_path, "~/.cache/dictatord/models/");
    assert_eq!(c.asr.language, "en");
    assert!(!c.asr.gpu_offload);
    assert_eq!(c.asr.gpu_device, 0);
    assert!(!c.asr.flash_attn);
    assert_eq!(c.asr.num_threads, 4);
    assert_eq!(c.output.method, "xdotool");
    assert!(c.output.capitalize);
    assert!(c.output.add_trailing_space);
    assert_eq!(c.output.typing_delay_ms, 5);
    assert!(c.visual.enabled);
    assert_eq!(c.visual.position, "top-right");
    assert_eq!(c.visual.color_hex, "#00CCFF");
    assert!(default_noise_suppression());
    assert_eq!(default_suppression_level(), "moderate");
}

#[test]
fn parse_bool_words() {
    for w in ["true", "TRUE", "1", "yes", "Yes", "on", "ON"] {
        assert_eq!(parse_bool(w), Ok(true), "{}", w);
    }
    for w in ["false", "False", "0", "no", "NO", "off", "oFf"] {
        assert_eq!(parse_bool(w), Ok(false), "{}", w);
    }
    for w in ["", "t", "y", "2", "truee", " true"] {
        assert_eq!(parse_bool(w), Err(ConfigError::InvalidBool), "{}", w);
    }
}

#[test]
fn apply_sets_each_kind_of_setting() {
    let mut c = Config::default();
    assert_eq!(c.apply("hotkey.key", "Ctrl+F2"), Ok(Applied::Stored));
    assert_eq!(c.hotkey.key, "Ctrl+F2");
    assert_eq!(c.apply("hotkey.mode", "ptt"), Ok(Applied::Stored));
    assert_eq!(c.hotkey.mode, "ptt");
    assert_eq!(c.apply("audio.noise_suppression", "off"), Ok(Applied::Stored));
    assert!(!c.audio.noise_suppression);
    assert_eq!(c.apply("audio.suppression_level", "very_high"), Ok(Applied::Stored));
    assert_eq!(c.audio.suppression_level, "very_high");
    assert_eq!(c.apply("audio.sample_rate", "48000"), Ok(Applied::Stored));
    assert_eq!(c.audio.sample_rate, 48000);
    assert_eq!(c.apply("audio.pre_roll_ms", "1500"), Ok(Applied::Stored));
    assert_eq!(c.audio.pre_roll_ms, 1500);
    assert_eq!(c.apply("audio.silence_timeout_ms", "+900"), Ok(Applied::Stored));
    assert_eq!(c.audio.silence_timeout_ms, 900);
    assert_eq!(c.apply("asr.model", "small"), Ok(Applied::Stored));
    assert_eq!(c.asr.model, "small");
    assert_eq!(c.apply("asr.gpu_offload", "yes"), Ok(Applied::Stored));
    assert!(c.asr.gpu_offload);
    assert_eq!(c.apply("asr.gpu_device", "-1"), Ok(Applied::Stored));
    assert_eq!(c.asr.gpu_device, -1);
    assert_eq!(c.apply("asr.flash_attn", "1"), Ok(Applied::Stored));
    assert!(c.asr.flash_attn);
    assert_eq!(c.apply("asr.num_threads", "8"), Ok(Applied::Stored));
    assert_eq!(c.asr.num_threads, 8);
    assert_eq!(c.apply("asr.language", "fr"), Ok(Applied::Stored));
    assert_eq!(c.asr.language, "fr");
    assert_eq!(c.apply("output.capitalize", "false"), Ok(Applied::Stored));
    assert!(!c.output.capitalize);
    assert_eq!(c.apply("output.add_trailing_space", "no"), Ok(Applied::Stored));
    assert!(!c.output.add_trailing_space);
    assert_eq!(c.apply("output.typing_delay_ms", "12"), Ok(Applied::Stored));
    assert_eq!(c.output.typing_delay_ms, 12);
    assert_eq!(c.apply("visual.enabled", "false"), Ok(Applied::Stored));
    assert!(!c.visual.enabled);
    assert_eq!(c.apply("visual.color_hex", "#FF0000"), Ok(Applied::Stored));
    assert_eq!(c.visual.color_hex, "#FF0000");
}

#[test]
fn apply_hands_back_decimal_settings() {
    let mut c = Config::default();
    assert_eq!(c.apply("audio.vad_threshold", "3.5"), Ok(Applied::Decimal(DecimalSetting::VadThreshold)));
    assert_eq!(c.apply("visual.opacity", "0.5"), Ok(Applied::Decimal(DecimalSetting::Opacity)));
}

#[test]
fn apply_refusals_leave_config_unchanged() {
    let mut c = Config::default();
    assert_eq!(c.apply("hotkey.mode", "hold"), Err(ConfigError::InvalidMode));
    assert_eq!(c.hotkey.mode, "both");
    assert_eq!(c.apply("hotkey.mode", "PTT"), Err(ConfigError::InvalidMode));
    assert_eq!(c.apply("audio.suppression_level", "extreme"), Err(ConfigError::InvalidSuppressionLevel));
    assert_eq!(c.audio.suppression_level, "moderate");
    assert_eq!(c.apply("asr.model", "large"), Err(ConfigError::InvalidModel));
    assert_eq!(c.asr.model, "tiny");
    assert_eq!(c.apply("asr.gpu_offload", "maybe"), Err(ConfigError::InvalidBool));
    assert!(!c.asr.gpu_offload);
    assert_eq!(c.apply("audio.sample_rate", "fast"), Err(ConfigError::InvalidNumber(IntErrorKind::InvalidDigit)));
    assert_eq!(c.apply("audio.sample_rate", ""), Err(ConfigError::InvalidNumber(IntErrorKind::Empty)));
    assert_eq!(c.apply("audio.sample_rate", "4294967296"), Err(ConfigError::InvalidNumber(IntErrorKind::PosOverflow)));
    assert_eq!(c.apply("asr.num_threads", "-2147483649"), Err(ConfigError::InvalidNumber(IntErrorKind::NegOverflow)));
    assert_eq!(c.audio.sample_rate, 16000);
    assert_eq!(c.apply("audio.device", "pulse"), Err(ConfigError::UnknownKey));
    assert_eq!(c.apply("visual.position", "top-left"), Err(ConfigError::UnknownKey));
    assert_eq!(c.audio.device, "default");
}

#[test]
fn apply_twice_is_apply_once() {
    let mut once = Config::default();
    let mut twice = Config::default();
    let r1 = once.apply("asr.num_threads", "6");
    twice.apply("asr.num_threads", "6").unwrap();
    let r2 = twice.apply("asr.num_threads", "6");
    assert_eq!(r1, r2);
    assert_eq!(once.asr.num_threads, twice.asr.num_threads);
}

#[test]
fn error_messages() {
    assert_eq!(ConfigError::UnknownKey.message("foo.bar", "1"), "unknown config key: foo.bar");
    assert_eq!(ConfigError::InvalidMode.message("hotkey.mode", "x"), "hotkey.mode must be one of: ptt, toggle, both");
    assert_eq!(
        ConfigError::InvalidSuppressionLevel.message("audio.suppression_level", "x"),
        "suppression_level must be one of: low, moderate, high, very_high"
    );
    assert_eq!(ConfigError::InvalidModel.message("asr.model", "x"), "model must be one of: tiny, base, small, medium");
    assert_eq!(ConfigError::InvalidBool.message("asr.flash_attn", "maybe"), "invalid boolean value: maybe");
    let std_msg = "x".parse::<u32>().unwrap_err().to_string();
    assert_eq!(ConfigError::InvalidNumber(IntErrorKind::InvalidDigit).message("k", "x"), std_msg);
    let std_msg = "".parse::<u32>().unwrap_err().to_string();
    assert_eq!(ConfigError::InvalidNumber(IntErrorKind::Empty).message("k", ""), std_msg);
    let std_msg = "99999999999".parse::<u32>().unwrap_err().to_string();
    assert_eq!(ConfigError::InvalidNumber(IntErrorKind::PosOverflow).message("k", ""), std_msg);
    let std_msg = "-99999999999".parse::<i32>().unwrap_err().to_string();
    assert_eq!(ConfigError::InvalidNumber(IntErrorKind::NegOverflow).message("k", ""), std_msg);
}

#[test]
fn restart_keys() {
    for k in ["hotkey.key", "hotkey.mode", "asr.model", "audio.device", "audio.sample_rate", "visual.enabled", "visual.position"] {
        assert!(Config::requires_restart(k), "{}", k);
    }
    for k in ["audio.noise_suppression", "asr.num_threads", "visual.opacity", "", "HOTKEY.KEY"] {
        assert!(!Config::requires_restart(k), "{}", k);
    }
}

#[test]
fn suppression_levels() {
    assert_eq!(parse_suppression_level("low"), SuppressionLevel::Low);
    assert_eq!(parse_suppression_level("6dB"), SuppressionLevel::Low);
    assert_eq!(parse_suppression_level("Moderate"), SuppressionLevel::Moderate);
    assert_eq!(parse_suppression_level("12db"), SuppressionLevel::Moderate);
    assert_eq!(parse_suppression_level("HIGH"), SuppressionLevel::High);
    assert_eq!(parse_suppression_level("18db"), SuppressionLevel::High);
    assert_eq!(parse_suppression_level("very_high"), SuppressionLevel::VeryHigh);
    assert_eq!(parse_suppression_level("Very High"), SuppressionLevel::VeryHigh);
    assert_eq!(parse_suppression_level("21DB"), SuppressionLevel::VeryHigh);
    assert_eq!(parse_suppression_level("loud"), SuppressionLevel::Moderate);
    assert_eq!(parse_suppression_level(""), SuppressionLevel::Moderate);
}

#[test]
fn hex_colors() {
    assert_eq!(parse_hex_rgb("#00CCFF"), Some((0, 0xcc, 0xff)));
    assert_eq!(parse_hex_rgb("00ccff"), Some((0, 0xcc, 0xff)));
    assert_eq!(parse_hex_rgb("##123456"), Some((0x12, 0x34, 0x56)));
    assert_eq!(parse_hex_rgb("#+f+f+f"), Some((15, 15, 15)));
    assert_eq!(parse_hex_rgb("#12345"), None);
    assert_eq!(parse_hex_rgb("#1234567"), None);
    assert_eq!(parse_hex_rgb("#12345g"), None);
    assert_eq!(parse_hex_rgb("#-12345"), None);
    assert_eq!(parse_hex_rgb("#éé00"), None);
    assert_eq!(parse_hex_rgb(""), None);
}
