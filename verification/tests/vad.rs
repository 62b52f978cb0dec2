use dictatord::config::Config;
use dictatord::vad::{VADState, Vad};

fn vad_with_timeout(ms: u64) -> Vad {
    let mut c = Config::default();
    c.audio.silence_timeout_ms = ms;
    Vad::new(&c.audio, 16000)
}

#[test]
fn speech_starts_after_two_loud_frames() {
    let mut v = vad_with_timeout(600);
    assert_eq!(v.process(true), VADState::Silence);
    assert!(!v.is_speech());
    assert_eq!(v.process(true), VADState::SpeechStarted);
    assert!(v.is_speech());
    assert_eq!(v.process(true), VADState::Speech);
}

#[test]
fn a_quiet_frame_resets_the_loud_count() {
    let mut v = vad_with_timeout(600);
    assert_eq!(v.process(true), VADState::Silence);
    assert_eq!(v.process(false), VADState::Silence);
    assert_eq!(v.process(true), VADState::Silence);
    assert_eq!(v.process(true), VADState::SpeechStarted);
}

#[test]
fn speech_ends_after_timeout_frames() {
    // 600 ms / 30 ms = 20 frames
    let mut v = vad_with_timeout(600);
    v.process(true);
    v.process(true);
    for _ in 0..19 {
        assert_eq!(v.process(false), VADState::Speech);
    }
    assert_eq!(v.process(false), VADState::SpeechEnded);
    assert!(!v.is_speech());
    assert_eq!(v.process(false), VADState::Silence);
}

#[test]
fn timeout_is_at_least_three_frames() {
    let mut v = vad_with_timeout(0);
    v.process(true);
    v.process(true);
    assert_eq!(v.process(false), VADState::Speech);
    assert_eq!(v.process(false), VADState::Speech);
    assert_eq!(v.process(false), VADState::SpeechEnded);
}

#[test]
fn loud_frame_during_speech_restarts_the_silence_count() {
    let mut v = vad_with_timeout(90); // 3 frames
    v.process(true);
    v.process(true);
    assert_eq!(v.process(false), VADState::Speech);
    assert_eq!(v.process(false), VADState::Speech);
    assert_eq!(v.process(true), VADState::Speech);
    assert_eq!(v.process(false), VADState::Speech);
    assert_eq!(v.process(false), VADState::Speech);
    assert_eq!(v.process(false), VADState::SpeechEnded);
}

#[test]
fn reset_returns_to_silence() {
    let mut v = vad_with_timeout(600);
    v.process(true);
    v.process(true);
    assert!(v.is_speech());
    v.reset();
    assert!(!v.is_speech());
    assert_eq!(v.process(true), VADState::Silence);
    assert_eq!(v.process(true), VADState::SpeechStarted);
}

#[test]
fn starts_and_ends_alternate() {
    let mut v = vad_with_timeout(90);
    let pattern = [true, true, true, false, true, false, false, false, true, false, true, true, false, false, false, false];
    let mut last_event = None;
    for loud in pattern {
        match v.process(loud) {
            VADState::SpeechStarted => {
                assert_ne!(last_event, Some(VADState::SpeechStarted));
                last_event = Some(VADState::SpeechStarted);
            }
            VADState::SpeechEnded => {
                assert_eq!(last_event, Some(VADState::SpeechStarted));
                last_event = Some(VADState::SpeechEnded);
            }
            _ => {}
        }
    }
    assert_eq!(last_event, Some(VADState::SpeechEnded));
}

#[test]
fn isolated_loud_frames_never_start_speech() {
    let mut v = vad_with_timeout(600);
    for _ in 0..50 {
        assert_eq!(v.process(true), VADState::Silence);
        assert_eq!(v.process(false), VADState::Silence);
    }
    assert!(!v.is_speech());
}

#[test]
fn reset_drops_speech_without_an_end_report() {
    let mut v = vad_with_timeout(90);
    v.process(true);
    assert_eq!(v.process(true), VADState::SpeechStarted);
    v.reset();
    assert_eq!(v.process(false), VADState::Silence);
    let mut w = vad_with_timeout(90);
    w.process(true);
    w.process(true);
    w.reset();
    assert_eq!(w.process(true), VADState::Silence);
}

#[test]
fn speech_lasts_at_least_the_timeout() {
    let mut v = vad_with_timeout(150); // 5 frames
    let mut reports = Vec::new();
    for loud in [true, true, false, false, false, false, false, false] {
        reports.push(v.process(loud));
    }
    assert_eq!(
        reports,
        vec![
            VADState::Silence,
            VADState::SpeechStarted,
            VADState::Speech,
            VADState::Speech,
            VADState::Speech,
            VADState::Speech,
            VADState::SpeechEnded,
            VADState::Silence,
        ]
    );
}
