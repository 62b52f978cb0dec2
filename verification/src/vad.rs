//! Voice activity detection: the frame-counting state machine that turns a
//! stream of "loud" / "quiet" frame verdicts into speech start and end
//! events. Whether a frame is loud (its level against the adaptive noise
//! floor) is decided by the caller.

use vstd::prelude::*;
use crate::config::AudioConfig;

verus! {

/// What one frame means for the speech in progress.
#[derive(Clone, Copy, Debug, PartialEq, Eq, Structural)]
pub enum VADState {
    /// No speech.
    Silence,
    /// Speech began with this frame.
    SpeechStarted,
    /// Speech goes on.
    Speech,
    /// Speech ended with this frame.
    SpeechEnded,
}

/// Frame counters of the voice activity detector.
pub struct Vad {
    silence_frames: u32,
    speech_frames: u32,
    is_speech: bool,
    silence_timeout_frames: u32,
    min_speech_frames: u32,
}

/// The detector's counters as mathematical values.
pub struct VadView {
    /// Consecutive quiet frames so far.
    pub silence_frames: nat,
    /// Consecutive loud frames so far.
    pub speech_frames: nat,
    /// Whether speech is in progress.
    pub is_speech: bool,
    /// Quiet frames that end speech.
    pub silence_timeout_frames: nat,
    /// Loud frames that start speech.
    pub min_speech_frames: nat,
}

impl View for Vad {
    type V = VadView;

    closed spec fn view(&self) -> VadView {
        VadView {
            silence_frames: self.silence_frames as nat,
            speech_frames: self.speech_frames as nat,
            is_speech: self.is_speech,
            silence_timeout_frames: self.silence_timeout_frames as nat,
            min_speech_frames: self.min_speech_frames as nat,
        }
    }
}

/// `n + 1`, held at the largest `u32`.
pub open spec fn count_up(n: nat) -> nat {
    if n + 1 > u32::MAX {
        u32::MAX as nat
    } else {
        n + 1
    }
}

/// The detector after one frame, and what the frame meant.
pub open spec fn vad_step(v: VadView, loud: bool) -> (VadView, VADState) {
    let counted = if loud {
        VadView { speech_frames: count_up(v.speech_frames), silence_frames: 0, ..v }
    } else {
        VadView { silence_frames: count_up(v.silence_frames), speech_frames: 0, ..v }
    };
    if !v.is_speech {
        if counted.speech_frames >= counted.min_speech_frames {
            (VadView { is_speech: true, speech_frames: 0, ..counted }, VADState::SpeechStarted)
        } else {
            (counted, VADState::Silence)
        }
    } else {
        if counted.silence_frames >= counted.silence_timeout_frames {
            (VadView { is_speech: false, silence_frames: 0, ..counted }, VADState::SpeechEnded)
        } else {
            (counted, VADState::Speech)
        }
    }
}

/// Quiet frames that end speech for a silence timeout of `ms`
/// milliseconds: one per 30 ms frame, at least 3.
pub open spec fn timeout_frames(ms: u64) -> nat {
    let frames: nat = if ms / 30 > u32::MAX { u32::MAX as nat } else { (ms / 30) as nat };
    if frames < 3 {
        3
    } else {
        frames
    }
}

impl VadView {
    /// The counters are consistent: speech starts on the second loud frame,
    /// it ends after at least three quiet ones, a silent detector has not
    /// yet seen enough loud frames to start, and one in speech has not yet
    /// seen enough quiet frames to end.
    pub open spec fn wf(self) -> bool {
        &&& self.min_speech_frames == 2
        &&& self.silence_timeout_frames >= 3
        &&& (!self.is_speech ==> self.speech_frames < self.min_speech_frames)
        &&& (self.is_speech ==> self.silence_frames < self.silence_timeout_frames)
    }
}

impl Vad {
    /// A silent detector for the silence timeout of `config`.
    pub fn new(config: &AudioConfig, _sample_rate: u32) -> (vad: Self)
        ensures
            vad@.wf(),
            vad@ == (VadView {
                silence_frames: 0,
                speech_frames: 0,
                is_speech: false,
                silence_timeout_frames: timeout_frames(config.silence_timeout_ms),
                min_speech_frames: 2,
            }),
    {
        let by_ms = config.silence_timeout_ms / 30;
        let frames: u32 = if by_ms > 0xffff_ffff { 0xffff_ffff } else { by_ms as u32 };
        Vad {
            silence_frames: 0,
            speech_frames: 0,
            is_speech: false,
            silence_timeout_frames: if frames < 3 { 3 } else { frames },
            min_speech_frames: 2,
        }
    }

    /// Feeds one frame, loud or quiet, and reports what it means for the
    /// speech in progress.
    pub fn process(&mut self, loud: bool) -> (state: VADState)
        requires
            old(self)@.wf(),
        ensures
            final(self)@.wf(),
            (final(self)@, state) == vad_step(old(self)@, loud),
    {
        if loud {
            self.speech_frames = self.speech_frames.saturating_add(1);
            self.silence_frames = 0;
        } else {
            self.silence_frames = self.silence_frames.saturating_add(1);
            self.speech_frames = 0;
        }
        if !self.is_speech {
            if self.speech_frames >= self.min_speech_frames {
                self.is_speech = true;
                self.speech_frames = 0;
                VADState::SpeechStarted
            } else {
                VADState::Silence
            }
        } else {
            if self.silence_frames >= self.silence_timeout_frames {
                self.is_speech = false;
                self.silence_frames = 0;
                VADState::SpeechEnded
            } else {
                VADState::Speech
            }
        }
    }

    /// Whether speech is in progress.
    pub fn is_speech(&self) -> (b: bool)
        ensures
            b == self@.is_speech,
    {
        self.is_speech
    }

    /// Back to silence with no frames counted; the thresholds stay.
    pub fn reset(&mut self)
        requires
            old(self)@.wf(),
        ensures
            final(self)@.wf(),
            final(self)@ == (VadView {
                silence_frames: 0,
                speech_frames: 0,
                is_speech: false,
                ..old(self)@
            }),
    {
        self.silence_frames = 0;
        self.speech_frames = 0;
        self.is_speech = false;
    }
}

/// Each frame either keeps the speech flag and reports `Silence` or
/// `Speech` accordingly, or flips it: `SpeechStarted` only from silence and
/// `SpeechEnded` only from speech. So start and end events alternate.
pub proof fn lemma_step_events(v: VadView, loud: bool)
    ensures
        ({
            let (next, e) = vad_step(v, loud);
            &&& e == VADState::SpeechStarted <==> (!v.is_speech && next.is_speech)
            &&& e == VADState::SpeechEnded <==> (v.is_speech && !next.is_speech)
            &&& e == VADState::Silence ==> (!v.is_speech && !next.is_speech)
            &&& e == VADState::Speech ==> (v.is_speech && next.is_speech)
        }),
{
}

/// The detector and its reports after the frames `frames`, in order.
pub open spec fn vad_run(v: VadView, frames: Seq<bool>) -> (VadView, Seq<VADState>)
    decreases frames.len(),
{
    if frames.len() == 0 {
        (v, Seq::empty())
    } else {
        let (v1, e) = vad_step(v, frames[0]);
        let (vn, es) = vad_run(v1, frames.drop_first());
        (vn, seq![e] + es)
    }
}

/// During speech, a run of quiet frames that reaches the silence timeout
/// reports `Speech` for every frame but the last, which reports
/// `SpeechEnded`.
pub proof fn lemma_quiet_run_ends_speech(v: VadView, k: nat)
    requires
        v.wf(),
        v.is_speech,
        k >= 1,
        v.silence_frames + k == v.silence_timeout_frames,
        v.silence_timeout_frames <= u32::MAX,
    ensures
        vad_run(v, Seq::new(k, |i: int| false)).1
            == Seq::new(k, |i: int| if i == k - 1 { VADState::SpeechEnded } else { VADState::Speech }),
        !vad_run(v, Seq::new(k, |i: int| false)).0.is_speech,
    decreases k,
{
    let frames = Seq::new(k, |i: int| false);
    let (v1, e) = vad_step(v, false);
    if k == 1 {
        assert(frames[0] == false);
        assert(frames.drop_first() =~= Seq::<bool>::empty());
        assert(vad_run(v1, Seq::<bool>::empty()) == (v1, Seq::<VADState>::empty()));
        assert(seq![e] + Seq::<VADState>::empty() =~= seq![e]);
        assert(vad_run(v, frames).1 =~= seq![VADState::SpeechEnded]);
    } else {
        assert(frames.drop_first() =~= Seq::new((k - 1) as nat, |i: int| false));
        lemma_quiet_run_ends_speech(v1, (k - 1) as nat);
        assert(vad_run(v, frames).1 =~= Seq::new(k, |i: int| if i == k - 1 { VADState::SpeechEnded } else { VADState::Speech }));
    }
}

/// In silence, a run of loud frames that reaches the speech minimum
/// reports `Silence` for every frame but the last, which reports
/// `SpeechStarted`.
pub proof fn lemma_loud_run_starts_speech(v: VadView, k: nat)
    requires
        v.wf(),
        !v.is_speech,
        k >= 1,
        v.speech_frames + k == v.min_speech_frames,
        v.min_speech_frames <= u32::MAX,
    ensures
        vad_run(v, Seq::new(k, |i: int| true)).1
            == Seq::new(k, |i: int| if i == k - 1 { VADState::SpeechStarted } else { VADState::Silence }),
        vad_run(v, Seq::new(k, |i: int| true)).0.is_speech,
    decreases k,
{
    let frames = Seq::new(k, |i: int| true);
    let (v1, e) = vad_step(v, true);
    if k == 1 {
        assert(frames[0] == true);
        assert(frames.drop_first() =~= Seq::<bool>::empty());
        assert(vad_run(v1, Seq::<bool>::empty()) == (v1, Seq::<VADState>::empty()));
        assert(seq![e] + Seq::<VADState>::empty() =~= seq![e]);
        assert(vad_run(v, frames).1 =~= seq![VADState::SpeechStarted]);
    } else {
        assert(frames.drop_first() =~= Seq::new((k - 1) as nat, |i: int| true));
        lemma_loud_run_starts_speech(v1, (k - 1) as nat);
        assert(vad_run(v, frames).1 =~= Seq::new(k, |i: int| if i == k - 1 { VADState::SpeechStarted } else { VADState::Silence }));
    }
}

/// Whether the reports `es` follow the detector's grammar from a state in
/// speech (`speech`) or in silence, where `count` reports of the current
/// stretch have been made: a stretch of silence reports `Silence` at least
/// once before `SpeechStarted`; a stretch of speech reports `Speech` at
/// least `t - 1` times before `SpeechEnded`; starts and ends alternate.
pub open spec fn reports_follow(es: Seq<VADState>, speech: bool, count: nat, t: nat) -> bool
    decreases es.len(),
{
    if es.len() == 0 {
        true
    } else {
        let rest = es.drop_first();
        match es[0] {
            VADState::Silence => !speech && reports_follow(rest, false, count + 1, t),
            VADState::SpeechStarted => !speech && count >= 1 && reports_follow(rest, true, 0, t),
            VADState::Speech => speech && reports_follow(rest, true, count + 1, t),
            VADState::SpeechEnded => speech && count + 1 >= t && reports_follow(rest, false, 0, t),
        }
    }
}

/// Whether every `SpeechStarted` in `es` comes on the second of two
/// consecutive loud frames of `frames`.
pub open spec fn starts_on_second_loud(frames: Seq<bool>, es: Seq<VADState>) -> bool {
    forall|i: int|
        0 <= i < es.len() && #[trigger] es[i] == VADState::SpeechStarted
            ==> 1 <= i && frames[i - 1] && frames[i]
}

/// One frame keeps the counters consistent.
pub proof fn lemma_step_wf(v: VadView, loud: bool)
    requires
        v.wf(),
    ensures
        vad_step(v, loud).0.wf(),
        vad_step(v, loud).0.silence_timeout_frames == v.silence_timeout_frames,
{
}

/// The reports of a run, from a consistent detector whose current stretch
/// has `count` reports and whose running counter is no larger, follow the
/// grammar; there is one report per frame.
proof fn lemma_run_follows(v: VadView, frames: Seq<bool>, count: nat)
    requires
        v.wf(),
        v.is_speech ==> v.silence_frames <= count,
        !v.is_speech ==> v.speech_frames <= count,
    ensures
        vad_run(v, frames).1.len() == frames.len(),
        reports_follow(vad_run(v, frames).1, v.is_speech, count, v.silence_timeout_frames),
    decreases frames.len(),
{
    if frames.len() > 0 {
        let (v1, e) = vad_step(v, frames[0]);
        let next_count: nat = if v1.is_speech == v.is_speech { count + 1 } else { 0 };
        lemma_step_wf(v, frames[0]);
        lemma_run_follows(v1, frames.drop_first(), next_count);
        let es = vad_run(v, frames).1;
        let rest = vad_run(v1, frames.drop_first()).1;
        assert(es[0] == e);
        assert(es.drop_first() =~= rest);
    }
}

/// In the reports of a run, a `SpeechStarted` comes on a loud frame that
/// follows another loud frame, or, for the first frame, a detector that has
/// already counted one.
proof fn lemma_run_starts(v: VadView, frames: Seq<bool>)
    requires
        v.wf(),
    ensures
        vad_run(v, frames).1.len() == frames.len(),
        forall|i: int|
            0 <= i < frames.len() && #[trigger] vad_run(v, frames).1[i] == VADState::SpeechStarted
                ==> frames[i] && (if i == 0 { v.speech_frames >= 1 } else { frames[i - 1] }),
    decreases frames.len(),
{
    if frames.len() > 0 {
        let (v1, e) = vad_step(v, frames[0]);
        let rest_frames = frames.drop_first();
        lemma_step_wf(v, frames[0]);
        lemma_run_starts(v1, rest_frames);
        let es = vad_run(v, frames).1;
        let rest = vad_run(v1, rest_frames).1;
        assert(es =~= seq![e] + rest);
        assert forall|i: int|
            0 <= i < frames.len() && #[trigger] es[i] == VADState::SpeechStarted
                implies frames[i] && (if i == 0 { v.speech_frames >= 1 } else { frames[i - 1] }) by {
            if i > 0 {
                assert(es[i] == rest[i - 1]);
                assert(rest_frames[i - 1] == frames[i]);
                if i > 1 {
                    assert(rest_frames[i - 2] == frames[i - 1]);
                }
            }
        }
    }
}

/// The whole life of a detector at rest (just built, or just reset): fed
/// any frames, one report per frame, and the reports alternate between
/// stretches of silence and of speech, beginning in silence. Each silence
/// stretch reports `Silence` at least once before `SpeechStarted`, each
/// speech stretch reports `Speech` at least `timeout - 1` times before
/// `SpeechEnded`, where the timeout is at least three frames, and speech
/// starts only on the second of two consecutive loud frames, so a single
/// loud frame never starts it.
pub proof fn lemma_detector_life(v: VadView, frames: Seq<bool>)
    requires
        v.wf(),
        !v.is_speech,
        v.speech_frames == 0,
    ensures
        vad_run(v, frames).1.len() == frames.len(),
        v.silence_timeout_frames >= 3,
        reports_follow(vad_run(v, frames).1, false, 0, v.silence_timeout_frames),
        starts_on_second_loud(frames, vad_run(v, frames).1),
{
    lemma_run_follows(v, frames, 0);
    lemma_run_starts(v, frames);
    let es = vad_run(v, frames).1;
    assert forall|i: int|
        0 <= i < es.len() && #[trigger] es[i] == VADState::SpeechStarted
            implies 1 <= i && frames[i - 1] && frames[i] by {
        assert(vad_run(v, frames).1[i] == VADState::SpeechStarted);
    }
}

/// After a reset, the next frame reports `Silence`, loud or quiet: speech
/// needs two consecutive loud frames again, and speech that was in progress
/// is dropped without `SpeechEnded`.
pub proof fn lemma_reset_then_silence(v: VadView, loud: bool)
    requires
        v.wf(),
    ensures
        vad_step(VadView { silence_frames: 0, speech_frames: 0, is_speech: false, ..v }, loud).1
            == VADState::Silence,
{
}

/// The silence timeout in frames is the configured milliseconds divided by
/// the 30 ms frame length, rounded down, raised to at least three frames,
/// and held at the largest 32-bit count: there is no other cap.
pub proof fn lemma_timeout_frames(ms: u64)
    ensures
        ms / 30 < 3 ==> timeout_frames(ms) == 3,
        3 <= ms / 30 <= u32::MAX ==> timeout_frames(ms) == ms / 30,
        ms / 30 > u32::MAX ==> timeout_frames(ms) == u32::MAX,
        timeout_frames(ms) * 30 <= ms || timeout_frames(ms) == 3,
{
    assert((ms / 30) * 30 <= ms) by (nonlinear_arith);
}

/// A detector built for a silence timeout of `ms` milliseconds (of at least
/// 90 and below the 32-bit frame count), fed two loud frames and then `ms / 30` quiet ones, reports
/// `Silence`, `SpeechStarted`, then `Speech` for the first `ms / 30 - 1`
/// quiet frames and `SpeechEnded` on the last: speech is auto-stopped after
/// exactly the configured silence.
pub proof fn lemma_silence_timeout_ends_speech(v: VadView, ms: u64)
    requires
        v.wf(),
        !v.is_speech,
        v.speech_frames == 0,
        v.silence_timeout_frames == timeout_frames(ms),
        3 <= ms / 30 <= u32::MAX,
    ensures
        ({
            let n = (ms / 30) as nat;
            let frames = seq![true, true] + Seq::new(n, |i: int| false);
            vad_run(v, frames).1 == seq![VADState::Silence, VADState::SpeechStarted]
                + Seq::new(n, |i: int| if i == n - 1 { VADState::SpeechEnded } else { VADState::Speech })
        }),
{
    lemma_timeout_frames(ms);
    let n = (ms / 30) as nat;
    let quiet = Seq::new(n, |i: int| false);
    let frames = seq![true, true] + quiet;
    let (v1, e1) = vad_step(v, true);
    let (v2, e2) = vad_step(v1, true);
    assert(e1 == VADState::Silence);
    assert(e2 == VADState::SpeechStarted);
    assert(frames[0] == true);
    assert(frames.drop_first() =~= seq![true] + quiet);
    assert((seq![true] + quiet)[0] == true);
    assert((seq![true] + quiet).drop_first() =~= quiet);
    lemma_quiet_run_ends_speech(v2, n);
    let ends = Seq::new(n, |i: int| if i == n - 1 { VADState::SpeechEnded } else { VADState::Speech });
    assert(vad_run(v1, seq![true] + quiet).1 =~= seq![e2] + ends);
    assert(vad_run(v, frames).1 =~= seq![e1] + (seq![e2] + ends));
    assert(seq![e1] + (seq![e2] + ends) =~= seq![VADState::Silence, VADState::SpeechStarted] + ends);
}

} // verus!
