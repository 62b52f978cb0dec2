//! Audio state shared between the capture callback and the dictation
//! loop: the pre-roll ring buffer and the buffer of the dictation being
//! recorded.

use vstd::prelude::*;
use crate::ring_buffer::{RingBuffer, keep_last, lemma_keep_last_append};

verus! {

/// Events from the audio capture to the dictation loop.
#[derive(Clone, Copy, Debug, PartialEq, Eq, Structural)]
pub enum AudioEvent {
    /// The voice-activity detector saw the end of speech.
    SpeechEnded,
}

/// Number of samples that `pre_roll_ms` milliseconds of audio at
/// `sample_rate` Hz amount to (the pre-roll window).
pub fn pre_roll_samples(sample_rate: u32, pre_roll_ms: u64) -> (n: usize)
    requires
        sample_rate * pre_roll_ms <= u64::MAX,
    ensures
        n == ((sample_rate * pre_roll_ms / 1000) as u64) as usize,
{
    let total: u64 = sample_rate as u64 * pre_roll_ms / 1000;
    total as usize
}

/// Samples shared between the capture callback and the dictation loop.
pub struct AudioShared {
    /// The most recent samples, recorded or not.
    pub ring_buffer: RingBuffer,
    /// The samples of the dictation in progress (or of the last one).
    pub recording_buffer: Vec<i16>,
    /// Whether captured samples are appended to `recording_buffer`.
    pub is_recording: bool,
}

/// The state that one captured chunk `mono` leads to: the ring keeps the
/// last `cap` samples, and the recording grows by the chunk while recording.
pub open spec fn capture_step(
    ring: Seq<i16>,
    recording: Seq<i16>,
    is_recording: bool,
    cap: nat,
    mono: Seq<i16>,
) -> (Seq<i16>, Seq<i16>) {
    (keep_last(ring + mono, cap), if is_recording { recording + mono } else { recording })
}

/// All chunks, one after the other.
pub open spec fn flatten(chunks: Seq<Seq<i16>>) -> Seq<i16>
    decreases chunks.len(),
{
    if chunks.len() == 0 {
        Seq::empty()
    } else {
        flatten(chunks.drop_last()) + chunks.last()
    }
}

/// The state after capturing each of `chunks` in order.
pub open spec fn capture_all(
    ring: Seq<i16>,
    recording: Seq<i16>,
    is_recording: bool,
    cap: nat,
    chunks: Seq<Seq<i16>>,
) -> (Seq<i16>, Seq<i16>)
    decreases chunks.len(),
{
    if chunks.len() == 0 {
        (ring, recording)
    } else {
        let before = capture_all(ring, recording, is_recording, cap, chunks.drop_last());
        capture_step(before.0, before.1, is_recording, cap, chunks.last())
    }
}

/// Capturing chunk after chunk is capturing their concatenation: the ring
/// ends with the last `cap` samples of everything, and a recording gains
/// every captured sample in order, none lost and none repeated.
pub proof fn lemma_capture_all(
    ring: Seq<i16>,
    recording: Seq<i16>,
    is_recording: bool,
    cap: nat,
    chunks: Seq<Seq<i16>>,
)
    requires
        ring.len() <= cap,
    ensures
        capture_all(ring, recording, is_recording, cap, chunks).0 == keep_last(ring + flatten(chunks), cap),
        capture_all(ring, recording, is_recording, cap, chunks).1
            == (if is_recording { recording + flatten(chunks) } else { recording }),
    decreases chunks.len(),
{
    if chunks.len() == 0 {
        assert(ring + flatten(chunks) =~= ring);
        if is_recording {
            assert(recording + flatten(chunks) =~= recording);
        }
    } else {
        let init = chunks.drop_last();
        lemma_capture_all(ring, recording, is_recording, cap, init);
        lemma_keep_last_append(ring + flatten(init), chunks.last(), cap);
        assert(ring + flatten(init) + chunks.last() =~= ring + flatten(chunks));
        if is_recording {
            assert(recording + flatten(init) + chunks.last() =~= recording + flatten(chunks));
        }
    }
}

/// Pre-roll: a recording started with a pre-roll of `n` samples and fed
/// `chunks` holds the last `n` samples heard before the start, followed by
/// every captured sample.
pub proof fn lemma_pre_roll_recording(ring: Seq<i16>, cap: nat, n: nat, chunks: Seq<Seq<i16>>)
    requires
        ring.len() <= cap,
    ensures
        capture_all(ring, keep_last(ring, n), true, cap, chunks).1 == keep_last(ring, n) + flatten(chunks),
{
    lemma_capture_all(ring, keep_last(ring, n), true, cap, chunks);
}

impl AudioShared {
    /// Shared state with an empty pre-roll window of `pre_roll_samples`
    /// samples, not recording.
    pub fn new(pre_roll_samples: usize) -> (s: Self)
        requires
            pre_roll_samples * 2 <= isize::MAX,
        ensures
            s.ring_buffer.wf(),
            s.ring_buffer.capacity_spec() == pre_roll_samples,
            s.ring_buffer@ == Seq::<i16>::empty(),
            s.recording_buffer@ == Seq::<i16>::empty(),
            !s.is_recording,
    {
        AudioShared { ring_buffer: RingBuffer::new(pre_roll_samples), recording_buffer: Vec::new(), is_recording: false }
    }

    /// Takes one chunk of captured samples: it always enters the pre-roll
    /// window, and it is appended to the recording while recording.
    pub fn capture(&mut self, mono: &[i16])
        requires
            old(self).ring_buffer.wf(),
            old(self).ring_buffer.capacity_spec() > 0 || mono@.len() == 0,
        ensures
            final(self).ring_buffer.wf(),
            final(self).ring_buffer.capacity_spec() == old(self).ring_buffer.capacity_spec(),
            final(self).is_recording == old(self).is_recording,
            (final(self).ring_buffer@, final(self).recording_buffer@) == capture_step(
                old(self).ring_buffer@,
                old(self).recording_buffer@,
                old(self).is_recording,
                old(self).ring_buffer.capacity_spec(),
                mono@,
            ),
    {
        self.ring_buffer.push(mono);
        if self.is_recording {
            let mut i: usize = 0;
            let ghost before = self.recording_buffer@;
            let ghost ring_after = self.ring_buffer;
            while i < mono.len()
                invariant
                    self.ring_buffer == ring_after,
                    self.is_recording,
                    i <= mono@.len(),
                    self.recording_buffer@ == before + mono@.subrange(0, i as int),
                decreases mono@.len() - i,
            {
                self.recording_buffer.push(mono[i]);
                i = i + 1;
                assert(self.recording_buffer@ =~= before + mono@.subrange(0, i as int));
            }
            assert(mono@.subrange(0, mono@.len() as int) =~= mono@);
        }
    }

    /// Starts recording with the last `pre_roll` samples heard, so that
    /// the words spoken just before the start are not clipped.
    pub fn start_recording(&mut self, pre_roll: usize)
        requires
            old(self).ring_buffer.wf(),
        ensures
            final(self).ring_buffer == old(self).ring_buffer,
            final(self).recording_buffer@ == keep_last(old(self).ring_buffer@, pre_roll as nat),
            final(self).is_recording,
    {
        self.recording_buffer = self.ring_buffer.snapshot(pre_roll);
        self.is_recording = true;
    }

    /// Stops recording and hands out a copy of the recorded samples.
    pub fn stop_recording(&mut self) -> (audio: Vec<i16>)
        ensures
            audio@ == old(self).recording_buffer@,
            final(self).recording_buffer@ == old(self).recording_buffer@,
            final(self).ring_buffer == old(self).ring_buffer,
            !final(self).is_recording,
    {
        self.is_recording = false;
        let mut audio: Vec<i16> = Vec::new();
        let mut i: usize = 0;
        while i < self.recording_buffer.len()
            invariant
                i <= self.recording_buffer@.len(),
                audio@ == self.recording_buffer@.subrange(0, i as int),
            decreases self.recording_buffer@.len() - i,
        {
            audio.push(self.recording_buffer[i]);
            i = i + 1;
            assert(audio@ =~= self.recording_buffer@.subrange(0, i as int));
        }
        assert(audio@ =~= self.recording_buffer@);
        audio
    }
}

} // verus!
