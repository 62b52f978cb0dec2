//! Verified core of a push-to-talk dictation daemon: the pre-roll ring
//! buffer, the voice-activity state machine, the dictation controller,
//! hotkey parsing, configuration updates and the control-socket protocol.

pub mod text;
pub mod number;
pub mod ring_buffer;
pub mod capture;
pub mod config;
pub mod vad;
pub mod hotkey;
pub mod dictation;
pub mod ipc;
pub mod asr;
pub mod output;
pub mod visual;
pub mod settings;
