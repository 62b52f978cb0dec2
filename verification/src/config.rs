//! Daemon configuration and its live updates by dotted key.
//!
//! The two settings whose values are decimal fractions (the VAD threshold
//! multiplier and the visualizer opacity) are not held here: this crate
//! computes on integers, strings and booleans only, so `Config::apply`
//! recognises their keys and hands the value back to the caller to read.

use vstd::prelude::*;
use crate::text::{ascii_upper, chars_of, eq_lit, fold, folded_chars};
use vstd::string::StringExecFns;
use crate::number::{IntErrorKind, decimal, lemma_decimal_round_trip, parse_spec, parse_u32, parse_u64, parse_i32, parse_hex_u8};
use crate::text::{utf8_len, is_byte_boundary};

verus! {

broadcast use vstd::string::group_string_axioms;

/// Hotkey settings.
pub struct HotkeyConfig {
    /// Key combination, e.g. "Super+D".
    pub key: String,
    /// "both" | "toggle" | "ptt".
    pub mode: String,
}

/// Audio capture settings (the VAD threshold multiplier is held by the caller).
pub struct AudioConfig {
    /// PulseAudio source name or "default".
    pub device: String,
    /// Sample rate for capture (Hz).
    pub sample_rate: u32,
    /// Pre-roll buffer size in milliseconds.
    pub pre_roll_ms: u64,
    /// Silence duration before auto-stop (ms).
    pub silence_timeout_ms: u64,
    /// Noise suppression before transcription.
    pub noise_suppression: bool,
    /// Suppression level: "low", "moderate", "high", "very_high".
    pub suppression_level: String,
}

/// Speech recognition settings.
pub struct AsrConfig {
    /// Model size: "tiny" | "base" | "small" | "medium".
    pub model: String,
    /// Directory that holds the model files.
    pub model_path: String,
    /// Language code (e.g. "en").
    pub language: String,
    /// Offload to the GPU when available.
    pub gpu_offload: bool,
    /// GPU device to use.
    pub gpu_device: i32,
    /// Flash attention.
    pub flash_attn: bool,
    /// CPU threads for inference.
    pub num_threads: i32,
}

/// Text output settings.
pub struct OutputConfig {
    /// Output method: "xdotool".
    pub method: String,
    /// Capitalize the first letter.
    pub capitalize: bool,
    /// Add a trailing space after the dictation.
    pub add_trailing_space: bool,
    /// Delay between keystrokes (ms).
    pub typing_delay_ms: u64,
}

/// Visualizer settings (the window opacity is held by the caller).
pub struct VisualConfig {
    /// Show the waveform overlay.
    pub enabled: bool,
    /// Position on screen: "top-right".
    pub position: String,
    /// Hex color of the orb, e.g. "#00CCFF".
    pub color_hex: String,
}

/// The whole configuration.
pub struct Config {
    pub hotkey: HotkeyConfig,
    pub audio: AudioConfig,
    pub asr: AsrConfig,
    pub output: OutputConfig,
    pub visual: VisualConfig,
}

/// The configuration as mathematical values, one field per setting.
pub struct ConfigView {
    pub hotkey_key: Seq<char>,
    pub hotkey_mode: Seq<char>,
    pub audio_device: Seq<char>,
    pub sample_rate: u32,
    pub pre_roll_ms: u64,
    pub silence_timeout_ms: u64,
    pub noise_suppression: bool,
    pub suppression_level: Seq<char>,
    pub model: Seq<char>,
    pub model_path: Seq<char>,
    pub language: Seq<char>,
    pub gpu_offload: bool,
    pub gpu_device: i32,
    pub flash_attn: bool,
    pub num_threads: i32,
    pub output_method: Seq<char>,
    pub capitalize: bool,
    pub add_trailing_space: bool,
    pub typing_delay_ms: u64,
    pub visual_enabled: bool,
    pub position: Seq<char>,
    pub color_hex: Seq<char>,
}

impl View for Config {
    type V = ConfigView;

    open spec fn view(&self) -> ConfigView {
        ConfigView {
            hotkey_key: self.hotkey.key@,
            hotkey_mode: self.hotkey.mode@,
            audio_device: self.audio.device@,
            sample_rate: self.audio.sample_rate,
            pre_roll_ms: self.audio.pre_roll_ms,
            silence_timeout_ms: self.audio.silence_timeout_ms,
            noise_suppression: self.audio.noise_suppression,
            suppression_level: self.audio.suppression_level@,
            model: self.asr.model@,
            model_path: self.asr.model_path@,
            language: self.asr.language@,
            gpu_offload: self.asr.gpu_offload,
            gpu_device: self.asr.gpu_device,
            flash_attn: self.asr.flash_attn,
            num_threads: self.asr.num_threads,
            output_method: self.output.method@,
            capitalize: self.output.capitalize,
            add_trailing_space: self.output.add_trailing_space,
            typing_delay_ms: self.output.typing_delay_ms,
            visual_enabled: self.visual.enabled,
            position: self.visual.position@,
            color_hex: self.visual.color_hex@,
        }
    }
}

/// Why a setting was refused.
#[derive(Clone, Copy, Debug, PartialEq, Eq, Structural)]
pub enum ConfigError {
    /// No setting has this key.
    UnknownKey,
    /// `hotkey.mode` is not one of ptt, toggle, both.
    InvalidMode,
    /// `audio.suppression_level` is not one of low, moderate, high, very_high.
    InvalidSuppressionLevel,
    /// `asr.model` is not one of tiny, base, small, medium.
    InvalidModel,
    /// The value is not a boolean word.
    InvalidBool,
    /// The value is not an integer of the setting's type.
    InvalidNumber(IntErrorKind),
}

/// Settings whose values are decimal fractions, read by the caller.
#[derive(Clone, Copy, Debug, PartialEq, Eq, Structural)]
pub enum DecimalSetting {
    /// `audio.vad_threshold`.
    VadThreshold,
    /// `visual.opacity`, which must lie in [0.0, 1.0].
    Opacity,
}

/// What a successful `Config::apply` did.
#[derive(Clone, Copy, Debug, PartialEq, Eq, Structural)]
pub enum Applied {
    /// The setting was stored in the configuration.
    Stored,
    /// The key names a decimal setting; the caller reads the value.
    Decimal(DecimalSetting),
}

/// The boolean that a word denotes, in any case: true/1/yes/on and
/// false/0/no/off.
pub open spec fn bool_word(value: Seq<char>) -> Option<bool> {
    let f = fold(value);
    if f == "true"@ || f == "1"@ || f == "yes"@ || f == "on"@ {
        Some(true)
    } else if f == "false"@ || f == "0"@ || f == "no"@ || f == "off"@ {
        Some(false)
    } else {
        None
    }
}

/// Parses "true"/"false"/"1"/"0"/"yes"/"no"/"on"/"off", in any case.
pub fn parse_bool(value: &str) -> (r: Result<bool, ConfigError>)
    ensures
        match bool_word(value@) {
            Some(b) => r == Ok::<bool, ConfigError>(b),
            None => r == Err::<bool, ConfigError>(ConfigError::InvalidBool),
        },
{
    let f = folded_chars(value);
    if eq_lit(&f, "true") || eq_lit(&f, "1") || eq_lit(&f, "yes") || eq_lit(&f, "on") {
        Ok(true)
    } else if eq_lit(&f, "false") || eq_lit(&f, "0") || eq_lit(&f, "no") || eq_lit(&f, "off") {
        Ok(false)
    } else {
        Err(ConfigError::InvalidBool)
    }
}


/// The configuration `c` with `key` set to `value`, and what the update
/// did; on an error the configuration is unchanged.
pub open spec fn apply_spec(c: ConfigView, key: Seq<char>, value: Seq<char>) -> (ConfigView, Result<Applied, ConfigError>) {
    let stored = Ok::<Applied, ConfigError>(Applied::Stored);
    if key == "hotkey.key"@ {
        (ConfigView { hotkey_key: value, ..c }, stored)
    } else if key == "hotkey.mode"@ {
        if value == "ptt"@ || value == "toggle"@ || value == "both"@ {
            (ConfigView { hotkey_mode: value, ..c }, stored)
        } else {
            (c, Err(ConfigError::InvalidMode))
        }
    } else if key == "audio.noise_suppression"@ {
        match bool_word(value) {
            Some(b) => (ConfigView { noise_suppression: b, ..c }, stored),
            None => (c, Err(ConfigError::InvalidBool)),
        }
    } else if key == "audio.suppression_level"@ {
        if value == "low"@ || value == "moderate"@ || value == "high"@ || value == "very_high"@ {
            (ConfigView { suppression_level: value, ..c }, stored)
        } else {
            (c, Err(ConfigError::InvalidSuppressionLevel))
        }
    } else if key == "audio.sample_rate"@ {
        match parse_spec(value, 10, false, 0, u32::MAX as int) {
            Ok(n) => (ConfigView { sample_rate: n as u32, ..c }, stored),
            Err(e) => (c, Err(ConfigError::InvalidNumber(e))),
        }
    } else if key == "audio.pre_roll_ms"@ {
        match parse_spec(value, 10, false, 0, u64::MAX as int) {
            Ok(n) => (ConfigView { pre_roll_ms: n as u64, ..c }, stored),
            Err(e) => (c, Err(ConfigError::InvalidNumber(e))),
        }
    } else if key == "audio.silence_timeout_ms"@ {
        match parse_spec(value, 10, false, 0, u64::MAX as int) {
            Ok(n) => (ConfigView { silence_timeout_ms: n as u64, ..c }, stored),
            Err(e) => (c, Err(ConfigError::InvalidNumber(e))),
        }
    } else if key == "audio.vad_threshold"@ {
        (c, Ok(Applied::Decimal(DecimalSetting::VadThreshold)))
    } else if key == "asr.model"@ {
        if value == "tiny"@ || value == "base"@ || value == "small"@ || value == "medium"@ {
            (ConfigView { model: value, ..c }, stored)
        } else {
            (c, Err(ConfigError::InvalidModel))
        }
    } else if key == "asr.gpu_offload"@ {
        match bool_word(value) {
            Some(b) => (ConfigView { gpu_offload: b, ..c }, stored),
            None => (c, Err(ConfigError::InvalidBool)),
        }
    } else if key == "asr.gpu_device"@ {
        match parse_spec(value, 10, true, i32::MIN as int, i32::MAX as int) {
            Ok(n) => (ConfigView { gpu_device: n as i32, ..c }, stored),
            Err(e) => (c, Err(ConfigError::InvalidNumber(e))),
        }
    } else if key == "asr.flash_attn"@ {
        match bool_word(value) {
            Some(b) => (ConfigView { flash_attn: b, ..c }, stored),
            None => (c, Err(ConfigError::InvalidBool)),
        }
    } else if key == "asr.num_threads"@ {
        match parse_spec(value, 10, true, i32::MIN as int, i32::MAX as int) {
            Ok(n) => (ConfigView { num_threads: n as i32, ..c }, stored),
            Err(e) => (c, Err(ConfigError::InvalidNumber(e))),
        }
    } else if key == "asr.language"@ {
        (ConfigView { language: value, ..c }, stored)
    } else if key == "output.capitalize"@ {
        match bool_word(value) {
            Some(b) => (ConfigView { capitalize: b, ..c }, stored),
            None => (c, Err(ConfigError::InvalidBool)),
        }
    } else if key == "output.add_trailing_space"@ {
        match bool_word(value) {
            Some(b) => (ConfigView { add_trailing_space: b, ..c }, stored),
            None => (c, Err(ConfigError::InvalidBool)),
        }
    } else if key == "output.typing_delay_ms"@ {
        match parse_spec(value, 10, false, 0, u64::MAX as int) {
            Ok(n) => (ConfigView { typing_delay_ms: n as u64, ..c }, stored),
            Err(e) => (c, Err(ConfigError::InvalidNumber(e))),
        }
    } else if key == "visual.enabled"@ {
        match bool_word(value) {
            Some(b) => (ConfigView { visual_enabled: b, ..c }, stored),
            None => (c, Err(ConfigError::InvalidBool)),
        }
    } else if key == "visual.color_hex"@ {
        (ConfigView { color_hex: value, ..c }, stored)
    } else if key == "visual.opacity"@ {
        (c, Ok(Applied::Decimal(DecimalSetting::Opacity)))
    } else {
        (c, Err(ConfigError::UnknownKey))
    }
}

impl Config {
    /// Applies a single setting by dotted key path (e.g.
    /// "audio.noise_suppression"). An unknown key or an invalid value is
    /// refused and leaves the configuration unchanged. Writing the result
    /// to disk is the caller's part.
    pub fn apply(&mut self, key: &str, value: &str) -> (r: Result<Applied, ConfigError>)
        ensures
            (final(self)@, r) == apply_spec(old(self)@, key@, value@),
    {
        let k = chars_of(key);
        let v = chars_of(value);
        if eq_lit(&k, "hotkey.key") {
            self.hotkey.key = value.to_string();
        } else if eq_lit(&k, "hotkey.mode") {
            if eq_lit(&v, "ptt") || eq_lit(&v, "toggle") || eq_lit(&v, "both") {
                self.hotkey.mode = value.to_string();
            } else {
                return Err(ConfigError::InvalidMode);
            }
        } else if eq_lit(&k, "audio.noise_suppression") {
            self.audio.noise_suppression = parse_bool(value)?;
        } else if eq_lit(&k, "audio.suppression_level") {
            if eq_lit(&v, "low") || eq_lit(&v, "moderate") || eq_lit(&v, "high") || eq_lit(&v, "very_high") {
                self.audio.suppression_level = value.to_string();
            } else {
                return Err(ConfigError::InvalidSuppressionLevel);
            }
        } else if eq_lit(&k, "audio.sample_rate") {
            match parse_u32(&v) {
                Ok(n) => { self.audio.sample_rate = n; },
                Err(e) => { return Err(ConfigError::InvalidNumber(e)); },
            }
        } else if eq_lit(&k, "audio.pre_roll_ms") {
            match parse_u64(&v) {
                Ok(n) => { self.audio.pre_roll_ms = n; },
                Err(e) => { return Err(ConfigError::InvalidNumber(e)); },
            }
        } else if eq_lit(&k, "audio.silence_timeout_ms") {
            match parse_u64(&v) {
                Ok(n) => { self.audio.silence_timeout_ms = n; },
                Err(e) => { return Err(ConfigError::InvalidNumber(e)); },
            }
        } else if eq_lit(&k, "audio.vad_threshold") {
            return Ok(Applied::Decimal(DecimalSetting::VadThreshold));
        } else if eq_lit(&k, "asr.model") {
            if eq_lit(&v, "tiny") || eq_lit(&v, "base") || eq_lit(&v, "small") || eq_lit(&v, "medium") {
                self.asr.model = value.to_string();
            } else {
                return Err(ConfigError::InvalidModel);
            }
        } else if eq_lit(&k, "asr.gpu_offload") {
            self.asr.gpu_offload = parse_bool(value)?;
        } else if eq_lit(&k, "asr.gpu_device") {
            match parse_i32(&v) {
                Ok(n) => { self.asr.gpu_device = n; },
                Err(e) => { return Err(ConfigError::InvalidNumber(e)); },
            }
        } else if eq_lit(&k, "asr.flash_attn") {
            self.asr.flash_attn = parse_bool(value)?;
        } else if eq_lit(&k, "asr.num_threads") {
            match parse_i32(&v) {
                Ok(n) => { self.asr.num_threads = n; },
                Err(e) => { return Err(ConfigError::InvalidNumber(e)); },
            }
        } else if eq_lit(&k, "asr.language") {
            self.asr.language = value.to_string();
        } else if eq_lit(&k, "output.capitalize") {
            self.output.capitalize = parse_bool(value)?;
        } else if eq_lit(&k, "output.add_trailing_space") {
            self.output.add_trailing_space = parse_bool(value)?;
        } else if eq_lit(&k, "output.typing_delay_ms") {
            match parse_u64(&v) {
                Ok(n) => { self.output.typing_delay_ms = n; },
                Err(e) => { return Err(ConfigError::InvalidNumber(e)); },
            }
        } else if eq_lit(&k, "visual.enabled") {
            self.visual.enabled = parse_bool(value)?;
        } else if eq_lit(&k, "visual.color_hex") {
            self.visual.color_hex = value.to_string();
        } else if eq_lit(&k, "visual.opacity") {
            return Ok(Applied::Decimal(DecimalSetting::Opacity));
        } else {
            return Err(ConfigError::UnknownKey);
        }
        Ok(Applied::Stored)
    }
}


/// Whether a change of `key` takes effect only after a restart.
pub open spec fn restart_key(key: Seq<char>) -> bool {
    key == "hotkey.key"@ || key == "hotkey.mode"@ || key == "asr.model"@ || key == "audio.device"@
        || key == "audio.sample_rate"@ || key == "visual.enabled"@ || key == "visual.position"@
}

/// The text of a parse error of an integer.
pub open spec fn int_error_text(kind: IntErrorKind) -> Seq<char> {
    match kind {
        IntErrorKind::Empty => "cannot parse integer from empty string"@,
        IntErrorKind::InvalidDigit => "invalid digit found in string"@,
        IntErrorKind::PosOverflow => "number too large to fit in target type"@,
        IntErrorKind::NegOverflow => "number too small to fit in target type"@,
    }
}

/// The message that reports `e` for the setting `key` = `value`.
pub open spec fn error_text(e: ConfigError, key: Seq<char>, value: Seq<char>) -> Seq<char> {
    match e {
        ConfigError::UnknownKey => "unknown config key: "@ + key,
        ConfigError::InvalidMode => "hotkey.mode must be one of: ptt, toggle, both"@,
        ConfigError::InvalidSuppressionLevel => "suppression_level must be one of: low, moderate, high, very_high"@,
        ConfigError::InvalidModel => "model must be one of: tiny, base, small, medium"@,
        ConfigError::InvalidBool => "invalid boolean value: "@ + value,
        ConfigError::InvalidNumber(kind) => int_error_text(kind),
    }
}

impl ConfigError {
    /// The message that reports this error for the setting `key` = `value`.
    pub fn message(&self, key: &str, value: &str) -> (m: String)
        ensures
            m@ == error_text(*self, key@, value@),
    {
        match self {
            ConfigError::UnknownKey => {
                let mut m = "unknown config key: ".to_string();
                m.append(key);
                m
            },
            ConfigError::InvalidMode => "hotkey.mode must be one of: ptt, toggle, both".to_string(),
            ConfigError::InvalidSuppressionLevel => "suppression_level must be one of: low, moderate, high, very_high".to_string(),
            ConfigError::InvalidModel => "model must be one of: tiny, base, small, medium".to_string(),
            ConfigError::InvalidBool => {
                let mut m = "invalid boolean value: ".to_string();
                m.append(value);
                m
            },
            ConfigError::InvalidNumber(kind) => match kind {
                IntErrorKind::Empty => "cannot parse integer from empty string".to_string(),
                IntErrorKind::InvalidDigit => "invalid digit found in string".to_string(),
                IntErrorKind::PosOverflow => "number too large to fit in target type".to_string(),
                IntErrorKind::NegOverflow => "number too small to fit in target type".to_string(),
            },
        }
    }
}

impl Config {
    /// Whether a change of `key` takes effect only after a daemon restart.
    pub fn requires_restart(key: &str) -> (b: bool)
        ensures
            b == restart_key(key@),
    {
        let k = chars_of(key);
        eq_lit(&k, "hotkey.key") || eq_lit(&k, "hotkey.mode") || eq_lit(&k, "asr.model")
            || eq_lit(&k, "audio.device") || eq_lit(&k, "audio.sample_rate")
            || eq_lit(&k, "visual.enabled") || eq_lit(&k, "visual.position")
    }
}

/// The setting keys, spelled out: their lengths, and for keys of one
/// length a character where they differ.
pub(crate) proof fn lemma_key_spelling()
    ensures
        "hotkey.key"@.len() == 10,
        "hotkey.mode"@.len() == 11,
        "audio.noise_suppression"@.len() == 23,
        "audio.suppression_level"@.len() == 23,
        "audio.sample_rate"@.len() == 17,
        "audio.pre_roll_ms"@.len() == 17,
        "audio.silence_timeout_ms"@.len() == 24,
        "audio.vad_threshold"@.len() == 19,
        "asr.model"@.len() == 9,
        "asr.gpu_offload"@.len() == 15,
        "asr.gpu_device"@.len() == 14,
        "asr.flash_attn"@.len() == 14,
        "asr.num_threads"@.len() == 15,
        "asr.language"@.len() == 12,
        "output.capitalize"@.len() == 17,
        "output.add_trailing_space"@.len() == 25,
        "output.typing_delay_ms"@.len() == 22,
        "visual.enabled"@.len() == 14,
        "visual.color_hex"@.len() == 16,
        "visual.opacity"@.len() == 14,
        "audio.noise_suppression"@[6] == 'n',
        "audio.suppression_level"@[6] == 's',
        "audio.sample_rate"@[6] == 's',
        "audio.pre_roll_ms"@[6] == 'p',
        "audio.sample_rate"@[0] == 'a',
        "output.capitalize"@[0] == 'o',
        "audio.pre_roll_ms"@[0] == 'a',
        "asr.gpu_offload"@[4] == 'g',
        "asr.num_threads"@[4] == 'n',
        "asr.gpu_device"@[4] == 'g',
        "asr.flash_attn"@[4] == 'f',
        "asr.gpu_device"@[0] == 'a',
        "visual.enabled"@[0] == 'v',
        "visual.opacity"@[0] == 'v',
        "asr.flash_attn"@[0] == 'a',
        "visual.enabled"@[7] == 'e',
        "visual.opacity"@[7] == 'o',
{
    reveal_strlit("hotkey.key");
    reveal_strlit("hotkey.mode");
    reveal_strlit("audio.noise_suppression");
    reveal_strlit("audio.suppression_level");
    reveal_strlit("audio.sample_rate");
    reveal_strlit("audio.pre_roll_ms");
    reveal_strlit("audio.silence_timeout_ms");
    reveal_strlit("audio.vad_threshold");
    reveal_strlit("asr.model");
    reveal_strlit("asr.gpu_offload");
    reveal_strlit("asr.gpu_device");
    reveal_strlit("asr.flash_attn");
    reveal_strlit("asr.num_threads");
    reveal_strlit("asr.language");
    reveal_strlit("output.capitalize");
    reveal_strlit("output.add_trailing_space");
    reveal_strlit("output.typing_delay_ms");
    reveal_strlit("visual.enabled");
    reveal_strlit("visual.color_hex");
    reveal_strlit("visual.opacity");
}

/// The choice settings accept exactly their listed values and store the
/// value given: the hotkey mode one of ptt, toggle, both; the suppression
/// level one of low, moderate, high, very_high; the model one of tiny,
/// base, small, medium. Any other value is refused with the setting's own
/// error and changes nothing.
pub proof fn lemma_choice_settings(c: ConfigView, value: Seq<char>)
    ensures
        apply_spec(c, "hotkey.mode"@, value) == if value == "ptt"@ || value == "toggle"@ || value == "both"@ {
            (ConfigView { hotkey_mode: value, ..c }, Ok::<Applied, ConfigError>(Applied::Stored))
        } else {
            (c, Err::<Applied, ConfigError>(ConfigError::InvalidMode))
        },
        apply_spec(c, "audio.suppression_level"@, value) == if value == "low"@ || value == "moderate"@
            || value == "high"@ || value == "very_high"@ {
            (ConfigView { suppression_level: value, ..c }, Ok::<Applied, ConfigError>(Applied::Stored))
        } else {
            (c, Err::<Applied, ConfigError>(ConfigError::InvalidSuppressionLevel))
        },
        apply_spec(c, "asr.model"@, value) == if value == "tiny"@ || value == "base"@ || value == "small"@
            || value == "medium"@ {
            (ConfigView { model: value, ..c }, Ok::<Applied, ConfigError>(Applied::Stored))
        } else {
            (c, Err::<Applied, ConfigError>(ConfigError::InvalidModel))
        },
{
    lemma_key_spelling();
}

/// The switch settings take a boolean word and store it in their own
/// field: audio.noise_suppression, asr.gpu_offload, asr.flash_attn,
/// output.capitalize, output.add_trailing_space, visual.enabled. Any other
/// word is refused as an invalid boolean and changes nothing.
pub proof fn lemma_switch_settings(c: ConfigView, value: Seq<char>)
    ensures
        apply_spec(c, "audio.noise_suppression"@, value) == (match bool_word(value) {
            Some(b) => ((ConfigView { noise_suppression: b, ..c }), Ok::<Applied, ConfigError>(Applied::Stored)),
            None => (c, Err::<Applied, ConfigError>(ConfigError::InvalidBool)),
        }),
        apply_spec(c, "asr.gpu_offload"@, value) == (match bool_word(value) {
            Some(b) => ((ConfigView { gpu_offload: b, ..c }), Ok::<Applied, ConfigError>(Applied::Stored)),
            None => (c, Err::<Applied, ConfigError>(ConfigError::InvalidBool)),
        }),
        apply_spec(c, "asr.flash_attn"@, value) == (match bool_word(value) {
            Some(b) => ((ConfigView { flash_attn: b, ..c }), Ok::<Applied, ConfigError>(Applied::Stored)),
            None => (c, Err::<Applied, ConfigError>(ConfigError::InvalidBool)),
        }),
        apply_spec(c, "output.capitalize"@, value) == (match bool_word(value) {
            Some(b) => ((ConfigView { capitalize: b, ..c }), Ok::<Applied, ConfigError>(Applied::Stored)),
            None => (c, Err::<Applied, ConfigError>(ConfigError::InvalidBool)),
        }),
        apply_spec(c, "output.add_trailing_space"@, value) == (match bool_word(value) {
            Some(b) => ((ConfigView { add_trailing_space: b, ..c }), Ok::<Applied, ConfigError>(Applied::Stored)),
            None => (c, Err::<Applied, ConfigError>(ConfigError::InvalidBool)),
        }),
        apply_spec(c, "visual.enabled"@, value) == (match bool_word(value) {
            Some(b) => ((ConfigView { visual_enabled: b, ..c }), Ok::<Applied, ConfigError>(Applied::Stored)),
            None => (c, Err::<Applied, ConfigError>(ConfigError::InvalidBool)),
        }),
{
    lemma_key_spelling();
}

/// The boolean words: true, 1, yes, on and false, 0, no, off, read in any
/// case; nothing else is a boolean.
pub proof fn lemma_bool_words(value: Seq<char>)
    ensures
        bool_word("true"@) == Some(true),
        bool_word("1"@) == Some(true),
        bool_word("yes"@) == Some(true),
        bool_word("on"@) == Some(true),
        bool_word("false"@) == Some(false),
        bool_word("0"@) == Some(false),
        bool_word("no"@) == Some(false),
        bool_word("off"@) == Some(false),
        bool_word(ascii_upper(value)) == bool_word(value),
{
    reveal_strlit("true");
    reveal_strlit("1");
    reveal_strlit("yes");
    reveal_strlit("on");
    reveal_strlit("false");
    reveal_strlit("0");
    reveal_strlit("no");
    reveal_strlit("off");
    assert(fold("true"@) =~= "true"@);
    assert(fold("1"@) =~= "1"@);
    assert(fold("yes"@) =~= "yes"@);
    assert(fold("on"@) =~= "on"@);
    assert(fold("false"@) =~= "false"@);
    assert(fold("0"@) =~= "0"@);
    assert(fold("no"@) =~= "no"@);
    assert(fold("off"@) =~= "off"@);
    assert("1"@[0] == '1' && "0"@[0] == '0');
    assert("on"@[0] == 'o' && "no"@[0] == 'n');
    assert("yes"@[0] == 'y' && "off"@[0] == 'o');
    assert(fold(ascii_upper(value)) =~= fold(value));
}

/// The text settings store the value as given: hotkey.key,
/// asr.language, visual.color_hex.
pub proof fn lemma_text_settings(c: ConfigView, value: Seq<char>)
    ensures
        apply_spec(c, "hotkey.key"@, value) == ((ConfigView { hotkey_key: value, ..c }), Ok::<Applied, ConfigError>(Applied::Stored)),
        apply_spec(c, "asr.language"@, value) == ((ConfigView { language: value, ..c }), Ok::<Applied, ConfigError>(Applied::Stored)),
        apply_spec(c, "visual.color_hex"@, value) == ((ConfigView { color_hex: value, ..c }), Ok::<Applied, ConfigError>(Applied::Stored)),
{
    lemma_key_spelling();
}

/// The number settings store the number that their value writes in
/// decimal, in their own field and within their type: the sample rate as
/// a 32-bit count; the pre-roll, the silence timeout and the typing delay
/// as 64-bit counts; the GPU device and the thread count as signed 32-bit
/// numbers, which may be negative.
pub proof fn lemma_number_settings(c: ConfigView, n: nat)
    ensures
        n <= u32::MAX ==> apply_spec(c, "audio.sample_rate"@, decimal(n))
            == ((ConfigView { sample_rate: n as u32, ..c }), Ok::<Applied, ConfigError>(Applied::Stored)),
        n <= u64::MAX ==> apply_spec(c, "audio.pre_roll_ms"@, decimal(n))
            == ((ConfigView { pre_roll_ms: n as u64, ..c }), Ok::<Applied, ConfigError>(Applied::Stored)),
        n <= u64::MAX ==> apply_spec(c, "audio.silence_timeout_ms"@, decimal(n))
            == ((ConfigView { silence_timeout_ms: n as u64, ..c }), Ok::<Applied, ConfigError>(Applied::Stored)),
        n <= u64::MAX ==> apply_spec(c, "output.typing_delay_ms"@, decimal(n))
            == ((ConfigView { typing_delay_ms: n as u64, ..c }), Ok::<Applied, ConfigError>(Applied::Stored)),
        n <= i32::MAX ==> apply_spec(c, "asr.gpu_device"@, decimal(n))
            == ((ConfigView { gpu_device: n as i32, ..c }), Ok::<Applied, ConfigError>(Applied::Stored)),
        n <= i32::MAX ==> apply_spec(c, "asr.num_threads"@, decimal(n))
            == ((ConfigView { num_threads: n as i32, ..c }), Ok::<Applied, ConfigError>(Applied::Stored)),
        -n >= i32::MIN ==> apply_spec(c, "asr.gpu_device"@, seq!['-'] + decimal(n))
            == ((ConfigView { gpu_device: -n as i32, ..c }), Ok::<Applied, ConfigError>(Applied::Stored)),
        -n >= i32::MIN ==> apply_spec(c, "asr.num_threads"@, seq!['-'] + decimal(n))
            == ((ConfigView { num_threads: -n as i32, ..c }), Ok::<Applied, ConfigError>(Applied::Stored)),
        n > u32::MAX ==> apply_spec(c, "audio.sample_rate"@, decimal(n))
            == (c, Err::<Applied, ConfigError>(ConfigError::InvalidNumber(IntErrorKind::PosOverflow))),
{
    lemma_key_spelling();
    lemma_decimal_round_trip(n, false, 0, u32::MAX as int);
    lemma_decimal_round_trip(n, false, 0, u64::MAX as int);
    lemma_decimal_round_trip(n, true, i32::MIN as int, i32::MAX as int);
}

/// A key that names no setting is refused as unknown and changes nothing.
pub proof fn lemma_unknown_key(c: ConfigView, key: Seq<char>, value: Seq<char>)
    requires
        key != "hotkey.key"@,
        key != "hotkey.mode"@,
        key != "audio.noise_suppression"@,
        key != "audio.suppression_level"@,
        key != "audio.sample_rate"@,
        key != "audio.pre_roll_ms"@,
        key != "audio.silence_timeout_ms"@,
        key != "audio.vad_threshold"@,
        key != "asr.model"@,
        key != "asr.gpu_offload"@,
        key != "asr.gpu_device"@,
        key != "asr.flash_attn"@,
        key != "asr.num_threads"@,
        key != "asr.language"@,
        key != "output.capitalize"@,
        key != "output.add_trailing_space"@,
        key != "output.typing_delay_ms"@,
        key != "visual.enabled"@,
        key != "visual.color_hex"@,
        key != "visual.opacity"@,
    ensures
        apply_spec(c, key, value) == (c, Err::<Applied, ConfigError>(ConfigError::UnknownKey)),
{
}

/// The two decimal settings are handed back to the caller with the
/// setting they name, whatever the value, and change nothing here:
/// `audio.vad_threshold` is the voice threshold, `visual.opacity` the
/// overlay's opacity.
pub proof fn lemma_decimal_settings(c: ConfigView, value: Seq<char>)
    ensures
        apply_spec(c, "audio.vad_threshold"@, value)
            == (c, Ok::<Applied, ConfigError>(Applied::Decimal(DecimalSetting::VadThreshold))),
        apply_spec(c, "visual.opacity"@, value)
            == (c, Ok::<Applied, ConfigError>(Applied::Decimal(DecimalSetting::Opacity))),
{
    lemma_key_spelling();
}

/// Applying a setting a second time changes nothing more: the result and
/// the configuration are those of the first application.
pub proof fn lemma_apply_idempotent(c: ConfigView, key: Seq<char>, value: Seq<char>)
    ensures
        apply_spec(apply_spec(c, key, value).0, key, value) == apply_spec(c, key, value),
{
    let first = apply_spec(c, key, value);
    // Each key writes one field from the value alone, or refuses and writes
    // nothing; the cases go by the kind of field.
    if key == "hotkey.key"@ || key == "asr.language"@ || key == "visual.color_hex"@ {
        lemma_text_settings(c, value);
        lemma_text_settings(first.0, value);
    } else if key == "hotkey.mode"@ || key == "audio.suppression_level"@ || key == "asr.model"@ {
        lemma_choice_settings(c, value);
        lemma_choice_settings(first.0, value);
    } else if key == "audio.noise_suppression"@ || key == "asr.gpu_offload"@ || key == "asr.flash_attn"@
        || key == "output.capitalize"@ || key == "output.add_trailing_space"@ || key == "visual.enabled"@ {
        lemma_switch_settings(c, value);
        lemma_switch_settings(first.0, value);
    } else if key == "audio.vad_threshold"@ || key == "visual.opacity"@ {
        lemma_decimal_settings(c, value);
    } else if key == "audio.sample_rate"@ || key == "audio.pre_roll_ms"@ || key == "audio.silence_timeout_ms"@
        || key == "asr.gpu_device"@ || key == "asr.num_threads"@ || key == "output.typing_delay_ms"@ {
        assert(apply_spec(first.0, key, value) == first);
    } else {
        lemma_unknown_key(c, key, value);
    }
}

/// A refused setting leaves the configuration as it was.
pub proof fn lemma_apply_error_unchanged(c: ConfigView, key: Seq<char>, value: Seq<char>)
    ensures
        apply_spec(c, key, value).1 is Err ==> apply_spec(c, key, value).0 == c,
{
}


/// The settings that a fresh installation starts with.
pub open spec fn default_view() -> ConfigView {
    ConfigView {
        hotkey_key: "Super+D"@,
        hotkey_mode: "both"@,
        audio_device: "default"@,
        sample_rate: 16000,
        pre_roll_ms: 2000,
        silence_timeout_ms: 600,
        noise_suppression: true,
        suppression_level: "moderate"@,
        model: "tiny"@,
        model_path: "~/.cache/dictatord/models/"@,
        language: "en"@,
        gpu_offload: false,
        gpu_device: 0,
        flash_attn: false,
        num_threads: 4,
        output_method: "xdotool"@,
        capitalize: true,
        add_trailing_space: true,
        typing_delay_ms: 5,
        visual_enabled: true,
        position: "top-right"@,
        color_hex: "#00CCFF"@,
    }
}

impl Default for Config {
    fn default() -> (c: Self)
        ensures
            c@ == default_view(),
    {
        Config {
            hotkey: HotkeyConfig { key: "Super+D".to_string(), mode: "both".to_string() },
            audio: AudioConfig {
                device: "default".to_string(),
                sample_rate: 16000,
                pre_roll_ms: 2000,
                silence_timeout_ms: 600,
                noise_suppression: default_noise_suppression(),
                suppression_level: default_suppression_level(),
            },
            asr: AsrConfig {
                model: "tiny".to_string(),
                model_path: "~/.cache/dictatord/models/".to_string(),
                language: "en".to_string(),
                gpu_offload: false,
                gpu_device: 0,
                flash_attn: false,
                num_threads: 4,
            },
            output: OutputConfig {
                method: "xdotool".to_string(),
                capitalize: true,
                add_trailing_space: true,
                typing_delay_ms: 5,
            },
            visual: VisualConfig {
                enabled: true,
                position: "top-right".to_string(),
                color_hex: "#00CCFF".to_string(),
            },
        }
    }
}

/// Noise suppression is on unless a configuration file turns it off.
pub fn default_noise_suppression() -> (b: bool)
    ensures
        b,
{
    true
}

/// The suppression level that a configuration file without one gets.
pub fn default_suppression_level() -> (s: String)
    ensures
        s@ == "moderate"@,
{
    "moderate".to_string()
}

/// Noise suppression strengths: 6, 12, 18 and 21 dB.
#[derive(Clone, Copy, Debug, PartialEq, Eq, Structural)]
pub enum SuppressionLevel {
    Low,
    Moderate,
    High,
    VeryHigh,
}

/// The suppression level that a configured name selects, in any case;
/// an unknown name selects `Moderate`.
pub open spec fn suppression_level_of(level: Seq<char>) -> SuppressionLevel {
    let f = fold(level);
    if f == "low"@ || f == "6db"@ {
        SuppressionLevel::Low
    } else if f == "moderate"@ || f == "12db"@ {
        SuppressionLevel::Moderate
    } else if f == "high"@ || f == "18db"@ {
        SuppressionLevel::High
    } else if f == "very_high"@ || f == "very high"@ || f == "21db"@ {
        SuppressionLevel::VeryHigh
    } else {
        SuppressionLevel::Moderate
    }
}

/// Reads a suppression level name; unknown names fall back to `Moderate`.
pub fn parse_suppression_level(level: &str) -> (l: SuppressionLevel)
    ensures
        l == suppression_level_of(level@),
{
    let f = folded_chars(level);
    if eq_lit(&f, "low") || eq_lit(&f, "6db") {
        SuppressionLevel::Low
    } else if eq_lit(&f, "moderate") || eq_lit(&f, "12db") {
        SuppressionLevel::Moderate
    } else if eq_lit(&f, "high") || eq_lit(&f, "18db") {
        SuppressionLevel::High
    } else if eq_lit(&f, "very_high") || eq_lit(&f, "very high") || eq_lit(&f, "21db") {
        SuppressionLevel::VeryHigh
    } else {
        SuppressionLevel::Moderate
    }
}

/// `s` without its leading `#` characters.
pub open spec fn trim_hash(s: Seq<char>) -> Seq<char>
    decreases s.len(),
{
    if s.len() > 0 && s[0] == '#' {
        trim_hash(s.drop_first())
    } else {
        s
    }
}

/// The red, green and blue bytes of a color written as six hex digits
/// after any number of `#`.
pub open spec fn hex_rgb_spec(hex: Seq<char>) -> Option<(u8, u8, u8)> {
    let t = trim_hash(hex);
    if t.len() == 6 && (forall|i: int| 0 <= i < 6 ==> (t[i] as u32) < 0x80) {
        match (
            parse_spec(t.subrange(0, 2), 16, false, 0, 255),
            parse_spec(t.subrange(2, 4), 16, false, 0, 255),
            parse_spec(t.subrange(4, 6), 16, false, 0, 255),
        ) {
            (Ok(r), Ok(g), Ok(b)) => Some((r as u8, g as u8, b as u8)),
            _ => None,
        }
    } else {
        None
    }
}

/// Whether the color text can be cut into its three byte pairs: when its
/// digits take six bytes, the cuts after the second and the fourth byte
/// fall between characters.
pub open spec fn hex_cuttable(hex: Seq<char>) -> bool {
    let t = trim_hash(hex);
    utf8_len(t) == 6 ==> is_byte_boundary(t, 2) && is_byte_boundary(t, 4)
}

/// Parses a color like "#00CCFF" into its red, green and blue bytes
/// (`None` for anything else; the caller picks the fallback color).
pub fn parse_hex_rgb(hex: &str) -> (rgb: Option<(u8, u8, u8)>)
    requires
        hex_cuttable(hex@),
    ensures
        rgb == hex_rgb_spec(hex@),
{
    let cs = chars_of(hex);
    let mut start: usize = 0;
    assert(cs@.subrange(0, cs@.len() as int) =~= cs@);
    while start < cs.len() && cs[start] == '#'
        invariant
            cs@ == hex@,
            start <= cs@.len(),
            trim_hash(hex@) == trim_hash(cs@.subrange(start as int, cs@.len() as int)),
        decreases cs@.len() - start,
    {
        assert(cs@.subrange(start as int, cs@.len() as int).drop_first()
            =~= cs@.subrange(start + 1, cs@.len() as int));
        start = start + 1;
    }
    let ghost t = cs@.subrange(start as int, cs@.len() as int);
    assert(trim_hash(t) == t);
    if cs.len() - start != 6 {
        return None;
    }
    let mut i: usize = start;
    while i < cs.len()
        invariant
            cs@ == hex@,
            start <= i <= cs@.len(),
            cs@.len() - start == 6,
            t == cs@.subrange(start as int, cs@.len() as int),
            trim_hash(hex@) == t,
            forall|j: int| 0 <= j < i - start ==> (t[j] as u32) < 0x80,
        decreases cs@.len() - i,
    {
        assert(t[i - start] == cs@[i as int]);
        if cs[i] as u32 >= 0x80 {
            return None;
        }
        i = i + 1;
    }
    let p0 = [cs[start], cs[start + 1]];
    let p1 = [cs[start + 2], cs[start + 3]];
    let p2 = [cs[start + 4], cs[start + 5]];
    assert(p0@ =~= t.subrange(0, 2));
    assert(p1@ =~= t.subrange(2, 4));
    assert(p2@ =~= t.subrange(4, 6));
    match (parse_hex_u8(&p0), parse_hex_u8(&p1), parse_hex_u8(&p2)) {
        (Ok(r), Ok(g), Ok(b)) => Some((r, g, b)),
        _ => None,
    }
}

} // verus!
