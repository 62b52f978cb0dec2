//! The dictation lifecycle: which hotkey and voice-activity events start
//! and stop a dictation in each hotkey mode.

use vstd::prelude::*;
use crate::hotkey::HotkeyEvent;
use crate::text::{chars_of, eq_lit};

verus! {

/// How long (ms) the hotkey must be held in `both` mode for its release
/// to stop the dictation (push-to-talk); a shorter tap keeps listening.
pub const PTT_THRESHOLD_MS: u64 = 300;

/// Where the dictation is.
#[derive(Clone, Copy, Debug, PartialEq, Eq, Structural)]
pub enum DictationState {
    /// Waiting for the hotkey.
    Idle,
    /// Recording.
    Listening,
    /// Transcribing and typing.
    Processing,
}

/// How the hotkey controls dictation.
#[derive(Clone, Copy, Debug, PartialEq, Eq, Structural)]
pub enum HotkeyMode {
    /// "ptt": hold to record, release to transcribe.
    PushToTalk,
    /// "toggle": press to start, press again to stop.
    Toggle,
    /// "both": tap to toggle, hold for push-to-talk.
    Both,
    /// Any other mode name: the hotkey starts a dictation, and only the
    /// voice-activity detector stops it.
    Other,
}

/// What the dictation loop has to do.
#[derive(Clone, Copy, Debug, PartialEq, Eq, Structural)]
pub enum Action {
    Nothing,
    /// Take the pre-roll, start recording, show the visualizer.
    StartListening,
    /// Stop recording, transcribe and type; then call `finish`.
    StopListening,
}

/// The mode that a mode name selects.
pub open spec fn mode_named(name: Seq<char>) -> HotkeyMode {
    if name == "ptt"@ {
        HotkeyMode::PushToTalk
    } else if name == "toggle"@ {
        HotkeyMode::Toggle
    } else if name == "both"@ {
        HotkeyMode::Both
    } else {
        HotkeyMode::Other
    }
}

/// Reads a hotkey mode name.
pub fn mode_of(name: &str) -> (m: HotkeyMode)
    ensures
        m == mode_named(name@),
{
    let n = chars_of(name);
    if eq_lit(&n, "ptt") {
        HotkeyMode::PushToTalk
    } else if eq_lit(&n, "toggle") {
        HotkeyMode::Toggle
    } else if eq_lit(&n, "both") {
        HotkeyMode::Both
    } else {
        HotkeyMode::Other
    }
}

/// The dictation controller.
pub struct Dictation {
    state: DictationState,
    press_timed: bool,
}

/// The controller as values: its state and whether the press that started
/// the current dictation is still being timed.
pub struct DictationView {
    pub state: DictationState,
    pub press_timed: bool,
}

impl View for Dictation {
    type V = DictationView;

    closed spec fn view(&self) -> DictationView {
        DictationView { state: self.state, press_timed: self.press_timed }
    }
}

/// The controller after a hotkey event, held `held_ms` ms after the press
/// that started listening, and the action to take.
pub open spec fn hotkey_step(d: DictationView, mode: HotkeyMode, event: HotkeyEvent, held_ms: u64) -> (DictationView, Action) {
    let stop = DictationView { state: DictationState::Processing, ..d };
    match d.state {
        DictationState::Idle => match event {
            HotkeyEvent::Pressed => (DictationView { state: DictationState::Listening, press_timed: true }, Action::StartListening),
            HotkeyEvent::Released => (d, Action::Nothing),
        },
        DictationState::Listening => match event {
            HotkeyEvent::Pressed => if mode == HotkeyMode::Toggle || mode == HotkeyMode::Both {
                (stop, Action::StopListening)
            } else {
                (d, Action::Nothing)
            },
            HotkeyEvent::Released => if mode == HotkeyMode::PushToTalk {
                (stop, Action::StopListening)
            } else if mode == HotkeyMode::Both && d.press_timed {
                if held_ms >= PTT_THRESHOLD_MS {
                    (DictationView { state: DictationState::Processing, press_timed: false }, Action::StopListening)
                } else {
                    (DictationView { press_timed: false, ..d }, Action::Nothing)
                }
            } else {
                (d, Action::Nothing)
            },
        },
        DictationState::Processing => (d, Action::Nothing),
    }
}

/// The controller after the voice-activity detector saw the end of speech.
pub open spec fn speech_end_step(d: DictationView, mode: HotkeyMode) -> (DictationView, Action) {
    if d.state == DictationState::Listening && mode != HotkeyMode::PushToTalk {
        (DictationView { state: DictationState::Processing, ..d }, Action::StopListening)
    } else {
        (d, Action::Nothing)
    }
}

impl Dictation {
    /// An idle controller.
    pub fn new() -> (d: Self)
        ensures
            d@ == (DictationView { state: DictationState::Idle, press_timed: false }),
    {
        Dictation { state: DictationState::Idle, press_timed: false }
    }

    /// Where the dictation is.
    pub fn state(&self) -> (s: DictationState)
        ensures
            s == self@.state,
    {
        self.state
    }

    /// Handles a hotkey event; `held_ms` is the time since the press that
    /// started the current dictation.
    pub fn on_hotkey(&mut self, mode: HotkeyMode, event: HotkeyEvent, held_ms: u64) -> (a: Action)
        ensures
            (final(self)@, a) == hotkey_step(old(self)@, mode, event, held_ms),
    {
        match self.state {
            DictationState::Idle => match event {
                HotkeyEvent::Pressed => {
                    self.state = DictationState::Listening;
                    self.press_timed = true;
                    Action::StartListening
                },
                HotkeyEvent::Released => Action::Nothing,
            },
            DictationState::Listening => match event {
                HotkeyEvent::Pressed => {
                    if mode == HotkeyMode::Toggle || mode == HotkeyMode::Both {
                        self.state = DictationState::Processing;
                        Action::StopListening
                    } else {
                        Action::Nothing
                    }
                },
                HotkeyEvent::Released => {
                    if mode == HotkeyMode::PushToTalk {
                        self.state = DictationState::Processing;
                        Action::StopListening
                    } else if mode == HotkeyMode::Both && self.press_timed {
                        self.press_timed = false;
                        if held_ms >= PTT_THRESHOLD_MS {
                            self.state = DictationState::Processing;
                            Action::StopListening
                        } else {
                            Action::Nothing
                        }
                    } else {
                        Action::Nothing
                    }
                },
            },
            DictationState::Processing => Action::Nothing,
        }
    }

    /// Handles the end of speech seen by the voice-activity detector.
    pub fn on_speech_ended(&mut self, mode: HotkeyMode) -> (a: Action)
        ensures
            (final(self)@, a) == speech_end_step(old(self)@, mode),
    {
        if self.state == DictationState::Listening && mode != HotkeyMode::PushToTalk {
            self.state = DictationState::Processing;
            Action::StopListening
        } else {
            Action::Nothing
        }
    }

    /// The transcription is over (typed, empty or failed): back to idle.
    pub fn finish(&mut self)
        ensures
            final(self)@ == (DictationView { state: DictationState::Idle, ..old(self)@ }),
    {
        self.state = DictationState::Idle;
    }
}

/// Only a dictation that is listening is ever stopped, only an idle one is
/// started, and a controller that is processing ignores every event.
pub proof fn lemma_transitions(d: DictationView, mode: HotkeyMode, event: HotkeyEvent, held_ms: u64)
    ensures
        hotkey_step(d, mode, event, held_ms).1 == Action::StopListening ==> d.state == DictationState::Listening
            && hotkey_step(d, mode, event, held_ms).0.state == DictationState::Processing,
        hotkey_step(d, mode, event, held_ms).1 == Action::StartListening ==> d.state == DictationState::Idle
            && hotkey_step(d, mode, event, held_ms).0.state == DictationState::Listening,
        speech_end_step(d, mode).1 == Action::StopListening ==> d.state == DictationState::Listening,
        d.state == DictationState::Processing ==> hotkey_step(d, mode, event, held_ms) == (d, Action::Nothing)
            && speech_end_step(d, mode) == (d, Action::Nothing),
{
}

/// In push-to-talk mode only the release of the key stops a dictation:
/// the voice-activity detector never does, and neither does a press.
pub proof fn lemma_push_to_talk_stops_on_release_only(d: DictationView, event: HotkeyEvent, held_ms: u64)
    ensures
        speech_end_step(d, HotkeyMode::PushToTalk).1 == Action::Nothing,
        hotkey_step(d, HotkeyMode::PushToTalk, event, held_ms).1 == Action::StopListening ==> event == HotkeyEvent::Released,
{
}


/// The hotkey modes, from an idle controller: in toggle mode a press
/// starts and the next press stops, whatever the release in between; in
/// push-to-talk mode the release stops; in both mode a release at least
/// `PTT_THRESHOLD_MS` after the press stops (hold), an earlier one keeps
/// listening (tap) and the next press stops.
pub proof fn lemma_mode_table(d: DictationView, held_ms: u64, later_ms: u64)
    requires
        d.state == DictationState::Idle,
    ensures
        ({
            let (t1, a1) = hotkey_step(d, HotkeyMode::Toggle, HotkeyEvent::Pressed, 0);
            let (t2, a2) = hotkey_step(t1, HotkeyMode::Toggle, HotkeyEvent::Released, held_ms);
            let (t3, a3) = hotkey_step(t2, HotkeyMode::Toggle, HotkeyEvent::Pressed, later_ms);
            a1 == Action::StartListening && a2 == Action::Nothing && a3 == Action::StopListening
                && t3.state == DictationState::Processing
        }),
        ({
            let (p1, a1) = hotkey_step(d, HotkeyMode::PushToTalk, HotkeyEvent::Pressed, 0);
            let (p2, a2) = hotkey_step(p1, HotkeyMode::PushToTalk, HotkeyEvent::Released, held_ms);
            a1 == Action::StartListening && a2 == Action::StopListening
        }),
        ({
            let (b1, a1) = hotkey_step(d, HotkeyMode::Both, HotkeyEvent::Pressed, 0);
            let (b2, a2) = hotkey_step(b1, HotkeyMode::Both, HotkeyEvent::Released, held_ms);
            let (b3, a3) = hotkey_step(b2, HotkeyMode::Both, HotkeyEvent::Pressed, later_ms);
            &&& a1 == Action::StartListening
            &&& (held_ms >= PTT_THRESHOLD_MS ==> a2 == Action::StopListening)
            &&& (held_ms < PTT_THRESHOLD_MS ==> a2 == Action::Nothing && b2.state == DictationState::Listening
                && a3 == Action::StopListening)
        }),
{
}

/// In both mode, the release that ends the press which started listening
/// stops the dictation exactly when the key was held 300 ms or more; a
/// shorter tap keeps listening, and only the first release is timed.
pub proof fn lemma_both_mode_hold(held_ms: u64, later_ms: u64)
    ensures
        ({
            let idle = DictationView { state: DictationState::Idle, press_timed: false };
            let (b1, _) = hotkey_step(idle, HotkeyMode::Both, HotkeyEvent::Pressed, 0);
            let (b2, a2) = hotkey_step(b1, HotkeyMode::Both, HotkeyEvent::Released, held_ms);
            let (_, a3) = hotkey_step(b2, HotkeyMode::Both, HotkeyEvent::Released, later_ms);
            &&& (a2 == Action::StopListening <==> held_ms >= 300)
            &&& held_ms < 300 ==> a3 == Action::Nothing
        }),
{
}

/// The end of speech stops a dictation that is listening in every mode
/// but push-to-talk, and changes nothing else.
pub proof fn lemma_speech_end_stops(d: DictationView, mode: HotkeyMode)
    ensures
        d.state == DictationState::Listening && mode != HotkeyMode::PushToTalk ==> speech_end_step(d, mode)
            == (DictationView { state: DictationState::Processing, ..d }, Action::StopListening),
        d.state != DictationState::Listening ==> speech_end_step(d, mode) == (d, Action::Nothing),
{
}

/// The feedback sounds.
#[derive(Clone, Copy, Debug, PartialEq, Eq, Structural)]
pub enum Sound {
    /// Listening started.
    Start,
    /// The text was typed.
    Stop,
    /// Transcription or typing failed.
    Error,
}

/// How a dictation ended.
#[derive(Clone, Copy, Debug, PartialEq, Eq, Structural)]
pub enum Outcome {
    /// The transcription failed.
    TranscriptionFailed,
    /// The transcription was empty: nothing was typed.
    NothingHeard,
    /// The text was typed.
    Typed,
    /// The text could not be typed.
    TypingFailed,
}

/// The sound that reports how a dictation ended (none when nothing was
/// heard).
pub open spec fn sound_for(outcome: Outcome) -> Option<Sound> {
    match outcome {
        Outcome::TranscriptionFailed => Some(Sound::Error),
        Outcome::NothingHeard => None,
        Outcome::Typed => Some(Sound::Stop),
        Outcome::TypingFailed => Some(Sound::Error),
    }
}

/// The sound that reports how a dictation ended.
pub fn sound_after(outcome: Outcome) -> (s: Option<Sound>)
    ensures
        s == sound_for(outcome),
{
    match outcome {
        Outcome::TranscriptionFailed => Some(Sound::Error),
        Outcome::NothingHeard => None,
        Outcome::Typed => Some(Sound::Stop),
        Outcome::TypingFailed => Some(Sound::Error),
    }
}

/// Whether the recorded audio goes through noise suppression before
/// transcription: when suppression is on and there is audio.
pub fn should_denoise(noise_suppression: bool, audio: &[i16]) -> (b: bool)
    ensures
        b == (noise_suppression && audio@.len() > 0),
{
    noise_suppression && audio.len() > 0
}

} // verus!
