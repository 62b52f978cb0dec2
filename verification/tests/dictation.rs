use dictatord::dictation::{
    mode_of, should_denoise, sound_after, Action, Dictation, DictationState, HotkeyMode, Outcome, Sound,
    PTT_THRESHOLD_MS,
};
use dictatord::hotkey::HotkeyEvent::{Pressed, Released};

#[test]
fn mode_names() {
    assert_eq!(mode_of("ptt"), HotkeyMode::PushToTalk);
    assert_eq!(mode_of("toggle"), HotkeyMode::Toggle);
    assert_eq!(mode_of("both"), HotkeyMode::Both);
    assert_eq!(mode_of("Both"), HotkeyMode::Other);
    assert_eq!(mode_of(""), HotkeyMode::Other);
}

#[test]
fn toggle_press_starts_press_stops() {
    let mut d = Dictation::new();
    let m = HotkeyMode::Toggle;
    assert_eq!(d.on_hotkey(m, Pressed, 0), Action::StartListening);
    assert_eq!(d.state(), DictationState::Listening);
    assert_eq!(d.on_hotkey(m, Released, 5000), Action::Nothing);
    assert_eq!(d.on_hotkey(m, Pressed, 0), Action::StopListening);
    assert_eq!(d.state(), DictationState::Processing);
    assert_eq!(d.on_hotkey(m, Pressed, 0), Action::Nothing);
    d.finish();
    assert_eq!(d.state(), DictationState::Idle);
}

#[test]
fn push_to_talk_release_stops() {
    let mut d = Dictation::new();
    let m = HotkeyMode::PushToTalk;
    assert_eq!(d.on_hotkey(m, Released, 0), Action::Nothing);
    assert_eq!(d.on_hotkey(m, Pressed, 0), Action::StartListening);
    assert_eq!(d.on_hotkey(m, Pressed, 0), Action::Nothing);
    assert_eq!(d.on_speech_ended(m), Action::Nothing);
    assert_eq!(d.state(), DictationState::Listening);
    assert_eq!(d.on_hotkey(m, Released, 1), Action::StopListening);
}

#[test]
fn both_mode_hold_stops_tap_keeps_listening() {
    let mut d = Dictation::new();
    let m = HotkeyMode::Both;
    assert_eq!(d.on_hotkey(m, Pressed, 0), Action::StartListening);
    assert_eq!(d.on_hotkey(m, Released, PTT_THRESHOLD_MS), Action::StopListening);
    d.finish();

    assert_eq!(d.on_hotkey(m, Pressed, 0), Action::StartListening);
    assert_eq!(d.on_hotkey(m, Released, PTT_THRESHOLD_MS - 1), Action::Nothing);
    assert_eq!(d.state(), DictationState::Listening);
    // the press is no longer timed: a later release does nothing
    assert_eq!(d.on_hotkey(m, Released, 10_000), Action::Nothing);
    // a second press stops
    assert_eq!(d.on_hotkey(m, Pressed, 0), Action::StopListening);
}

#[test]
fn speech_end_stops_outside_push_to_talk() {
    for m in [HotkeyMode::Toggle, HotkeyMode::Both, HotkeyMode::Other] {
        let mut d = Dictation::new();
        assert_eq!(d.on_speech_ended(m), Action::Nothing);
        d.on_hotkey(m, Pressed, 0);
        assert_eq!(d.on_speech_ended(m), Action::StopListening);
        assert_eq!(d.state(), DictationState::Processing);
        assert_eq!(d.on_speech_ended(m), Action::Nothing);
    }
}

#[test]
fn other_mode_ignores_key_once_listening() {
    let mut d = Dictation::new();
    let m = HotkeyMode::Other;
    assert_eq!(d.on_hotkey(m, Pressed, 0), Action::StartListening);
    assert_eq!(d.on_hotkey(m, Pressed, 0), Action::Nothing);
    assert_eq!(d.on_hotkey(m, Released, 1000), Action::Nothing);
}

#[test]
fn sounds_and_denoise() {
    assert_eq!(sound_after(Outcome::Typed), Some(Sound::Stop));
    assert_eq!(sound_after(Outcome::TypingFailed), Some(Sound::Error));
    assert_eq!(sound_after(Outcome::TranscriptionFailed), Some(Sound::Error));
    assert_eq!(sound_after(Outcome::NothingHeard), None);
    assert!(should_denoise(true, &[1]));
    assert!(!should_denoise(true, &[]));
    assert!(!should_denoise(false, &[1]));
}
