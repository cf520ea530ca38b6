//! The audio-capture session: an `Idle`/`Recording` state machine over
//! a sample accumulator, with the processing pipeline that turns a raw
//! capture into mono 16 kHz samples ready for encoding.
//!
//! The worker thread that owns the input stream lives outside the
//! library; it feeds samples in through [`AudioRecorder::append_samples`]
//! and reads the stop signal out of the state.

use vstd::prelude::*;
use crate::dsp::{
    frame_mean, lerp_sample, mixdown, resample, resample_len, rms_level, rms_spec, is_isqrt,
    square_sum, level_window,
};
use crate::TARGET_SAMPLE_RATE;
use vstd::arithmetic::div_mod::{lemma_fundamental_div_mod, lemma_mod_bound};
use vstd::arithmetic::mul::{lemma_mul_inequality, lemma_mul_is_commutative};

verus! {

/// Fewest 16 kHz samples a recording may hold: half a second of audio.
pub const MIN_SAMPLES: usize = 8000;

/// Whether a capture session is running.
#[derive(Clone, Copy, Debug, PartialEq, Eq, Structural)]
pub enum CaptureState {
    Idle,
    Recording,
}

/// Why a stopped recording yields no clip.
#[derive(Clone, Copy, Debug, PartialEq, Eq, Structural)]
pub enum CaptureError {
    /// The accumulator was empty: no audio arrived at all.
    NoAudioCaptured,
    /// The processed recording is shorter than the minimum duration.
    TooShort,
    /// The clip cannot be framed: it is too large for the container.
    EncodeFailed,
}

impl CaptureError {
    /// A user-facing description of the error, distinct per variant.
    pub fn message(&self) -> (r: String)
        ensures
            *self is NoAudioCaptured ==> r@
                == "No audio data captured. Microphone may not be working."@,
            *self is TooShort ==> r@ == "Recording too short. Please hold the key longer."@,
            *self is EncodeFailed ==> r@ == "Failed to encode audio."@,
    {
        let s = match self {
            CaptureError::NoAudioCaptured => "No audio data captured. Microphone may not be working.",
            CaptureError::TooShort => "Recording too short. Please hold the key longer.",
            CaptureError::EncodeFailed => "Failed to encode audio.",
        };
        proof {
            reveal_strlit("No audio data captured. Microphone may not be working.");
            reveal_strlit("Recording too short. Please hold the key longer.");
            reveal_strlit("Failed to encode audio.");
        }
        s.to_owned()
    }
}

/// The mono track a multi-channel capture reduces to.
pub open spec fn mono_of(s: Seq<i16>, ch: int) -> Seq<i16> {
    Seq::new((s.len() / ch as nat) as nat, |i: int| frame_mean(s, ch, i) as i16)
}

/// The track after resampling to the target rate.
pub open spec fn resampled_of(s: Seq<i16>, from: int, to: int) -> Seq<i16> {
    if from == to {
        s
    } else {
        Seq::new(
            resample_len(s.len() as int, from, to) as nat,
            |i: int| lerp_sample(s, from, to, i) as i16,
        )
    }
}

/// The finished 16 kHz mono track of a capture: mixdown, then
/// resampling.
pub open spec fn processed_of(s: Seq<i16>, ch: int, rate: int) -> Seq<i16> {
    resampled_of(mono_of(s, ch), rate, TARGET_SAMPLE_RATE as int)
}

/// The finished track a recorder's accumulator processes to.
pub open spec fn processed(r: &AudioRecorder) -> Seq<i16> {
    processed_of(r.spec_buffer(), r.spec_channels() as int, r.spec_rate() as int)
}

/// One capture session. The accumulator, the source format fields and
/// the recording flag are the state shared with the worker thread; the
/// caller serialises access.
pub struct AudioRecorder {
    state: CaptureState,
    buffer: Vec<i16>,
    source_sample_rate: u32,
    source_channels: u32,
}

impl AudioRecorder {
    /// The recorder's source format is usable: a positive rate and at
    /// least one channel.
    pub closed spec fn wf(&self) -> bool {
        self.source_sample_rate >= 1 && self.source_channels >= 1
    }

    pub closed spec fn spec_state(&self) -> CaptureState {
        self.state
    }

    pub closed spec fn spec_buffer(&self) -> Seq<i16> {
        self.buffer@
    }

    pub closed spec fn spec_rate(&self) -> u32 {
        self.source_sample_rate
    }

    pub closed spec fn spec_channels(&self) -> u32 {
        self.source_channels
    }

    /// A fresh recorder: idle, with an empty accumulator and the
    /// target format as its default source format.
    pub fn new() -> (r: AudioRecorder)
        ensures
            r.wf(),
            r.spec_state() == CaptureState::Idle,
            r.spec_buffer() == Seq::<i16>::empty(),
            r.spec_rate() == TARGET_SAMPLE_RATE,
            r.spec_channels() == 1,
    {
        AudioRecorder {
            state: CaptureState::Idle,
            buffer: Vec::new(),
            source_sample_rate: TARGET_SAMPLE_RATE,
            source_channels: 1,
        }
    }

    /// Begins a session. A still-running session is terminated first;
    /// either way the accumulator is cleared before recording starts,
    /// so no samples of an earlier session survive into the new one.
    /// The result reports whether an earlier session had to be
    /// terminated.
    pub fn start_recording(&mut self) -> (was_recording: bool)
        ensures
            final(self).spec_state() == CaptureState::Recording,
            final(self).spec_buffer() == Seq::<i16>::empty(),
            final(self).spec_rate() == old(self).spec_rate(),
            final(self).spec_channels() == old(self).spec_channels(),
            final(self).wf() == old(self).wf(),
            was_recording == (old(self).spec_state() == CaptureState::Recording),
    {
        let was_recording = self.state == CaptureState::Recording;
        if was_recording {
            // The worker of the previous session is signalled and
            // given a grace period outside the library; here the flag
            // is force-reset.
            self.state = CaptureState::Idle;
        }
        self.buffer = Vec::new();
        self.state = CaptureState::Recording;
        was_recording
    }

    /// Records the format the device actually negotiated, for the
    /// resampling step later.
    pub fn set_source_format(&mut self, rate: u32, channels: u32)
        requires
            rate >= 1,
            channels >= 1,
        ensures
            final(self).spec_rate() == rate,
            final(self).spec_channels() == channels,
            final(self).spec_state() == old(self).spec_state(),
            final(self).spec_buffer() == old(self).spec_buffer(),
            final(self).wf(),
    {
        self.source_sample_rate = rate;
        self.source_channels = channels;
    }

    /// Appends captured samples, as the input stream's callback hands
    /// them over: every incoming sample, all channels interleaved.
    pub fn append_samples(&mut self, chunk: &Vec<i16>)
        requires
            old(self).spec_buffer().len() + chunk@.len() <= usize::MAX,
        ensures
            final(self).spec_buffer() == old(self).spec_buffer() + chunk@,
            final(self).spec_state() == old(self).spec_state(),
            final(self).spec_rate() == old(self).spec_rate(),
            final(self).spec_channels() == old(self).spec_channels(),
            final(self).wf() == old(self).wf(),
    {
        let mut j: usize = 0;
        let n = chunk.len();
        while j < n
            invariant
                0 <= j <= n,
                n == chunk@.len(),
                self.buffer@ == old(self).buffer@ + chunk@.subrange(0, j as int),
                self.buffer@.len() == old(self).buffer@.len() + j,
                old(self).buffer@.len() + n <= usize::MAX,
                self.state == old(self).state,
                self.source_sample_rate == old(self).source_sample_rate,
                self.source_channels == old(self).source_channels,
            decreases n - j,
        {
            self.buffer.push(chunk[j]);
            proof {
                assert(self.buffer@ =~= old(self).buffer@ + chunk@.subrange(0, j + 1));
            }
            j = j + 1;
        }
        proof {
            assert(self.buffer@ =~= old(self).buffer@ + chunk@);
        }
    }

    /// Number of samples accumulated so far.
    pub fn buffer_len(&self) -> (r: usize)
        ensures
            r == self.spec_buffer().len(),
    {
        self.buffer.len()
    }

    /// Ends the session: the recording flag is reset, the accumulator
    /// is read out and reset, and what it held is run through mixdown,
    /// resampling and the minimum-duration check, the finished track
    /// coming back as a WAV image.
    pub fn stop_recording(&mut self) -> (r: Result<Vec<u8>, CaptureError>)
        requires
            old(self).wf(),
            old(self).spec_buffer().len() <= usize::MAX as int / (TARGET_SAMPLE_RATE as int),
        ensures
            final(self).spec_state() == CaptureState::Idle,
            final(self).spec_buffer() == Seq::<i16>::empty(),
            final(self).spec_rate() == old(self).spec_rate(),
            final(self).spec_channels() == old(self).spec_channels(),
            final(self).wf(),
            old(self).spec_buffer().len() == 0 <==> r == Result::<Vec<u8>, CaptureError>::Err(
                CaptureError::NoAudioCaptured,
            ),
            (old(self).spec_buffer().len() > 0 && processed(old(self)).len() < MIN_SAMPLES) <==> r
                == Result::<Vec<u8>, CaptureError>::Err(CaptureError::TooShort),
            (old(self).spec_buffer().len() > 0 && processed(old(self)).len() >= MIN_SAMPLES && 2
                * processed(old(self)).len() + crate::wav::WAV_HEADER_LEN > u32::MAX) <==> r
                == Result::<Vec<u8>, CaptureError>::Err(CaptureError::EncodeFailed),
            r matches Ok(bytes) ==> bytes@ == crate::wav::wav_bytes(processed(old(self)))
                && processed(old(self)).len() >= MIN_SAMPLES,
            (old(self).spec_buffer().len() > 0 && processed(old(self)).len() >= MIN_SAMPLES && 2
                * processed(old(self)).len() + crate::wav::WAV_HEADER_LEN <= u32::MAX) ==> r is Ok,
    {
        self.state = CaptureState::Idle;
        let r = match process_recording(&self.buffer, self.source_channels, self.source_sample_rate) {
            Err(e) => Err(e),
            Ok(resampled) => {
                if resampled.len() > 2147483625 {
                    Err(CaptureError::EncodeFailed)
                } else {
                    Ok(crate::wav::encode_wav(&resampled))
                }
            },
        };
        self.buffer = Vec::new();
        r
    }

    /// Abandons a session without producing a clip, as the capture
    /// worker does when it cannot set the stream up: the flag goes back
    /// to idle and nothing else changes.
    pub fn abort_recording(&mut self)
        ensures
            final(self).spec_state() == CaptureState::Idle,
            final(self).spec_buffer() == old(self).spec_buffer(),
            final(self).spec_rate() == old(self).spec_rate(),
            final(self).spec_channels() == old(self).spec_channels(),
            final(self).wf() == old(self).wf(),
    {
        self.state = CaptureState::Idle;
    }

    /// Non-blocking read of the current RMS level over the live
    /// accumulator.
    pub fn get_audio_level(&self) -> (r: u32)
        ensures
            self.spec_buffer().len() == 0 ==> r == 0,
            self.spec_buffer().len() > 0 ==> exists|root: int|
                is_isqrt(
                    root,
                    square_sum(level_window(self.spec_buffer())) / level_window(
                        self.spec_buffer(),
                    ).len() as int,
                ) && r == rms_spec(root),
    {
        rms_level(&self.buffer)
    }
}

/// Turns a raw capture into the finished 16 kHz mono track: mixdown,
/// resampling, then the minimum-duration check. An empty capture and
/// one shorter than half a second are rejected, each with its own
/// error; anything of at least [`MIN_SAMPLES`] samples is accepted.
pub fn process_recording(buffer: &Vec<i16>, channels: u32, rate: u32) -> (r: Result<
    Vec<i16>,
    CaptureError,
>)
    requires
        channels >= 1,
        rate >= 1,
        buffer@.len() <= usize::MAX as int / (TARGET_SAMPLE_RATE as int),
    ensures
        buffer@.len() == 0 <==> r == Result::<Vec<i16>, CaptureError>::Err(
            CaptureError::NoAudioCaptured,
        ),
        (buffer@.len() > 0 && processed_of(buffer@, channels as int, rate as int).len()
            < MIN_SAMPLES) <==> r == Result::<Vec<i16>, CaptureError>::Err(CaptureError::TooShort),
        r matches Ok(out) ==> out@ == processed_of(buffer@, channels as int, rate as int)
            && out@.len() >= MIN_SAMPLES,
        processed_of(buffer@, channels as int, rate as int).len() >= MIN_SAMPLES && buffer@.len()
            > 0 ==> (r matches Ok(out) && out@ == processed_of(
            buffer@,
            channels as int,
            rate as int,
        )),
{
    if buffer.len() == 0 {
        return Err(CaptureError::NoAudioCaptured);
    }
    let mono = mixdown(buffer, channels);
    proof {
        assert(mono@ =~= mono_of(buffer@, channels as int));
    }
    proof {
        lemma_fundamental_div_mod(
            (mono@.len() as int) * (TARGET_SAMPLE_RATE as int),
            rate as int,
        );
        lemma_mod_bound((mono@.len() as int) * (TARGET_SAMPLE_RATE as int), rate as int);
        vstd::arithmetic::div_mod::lemma_div_is_ordered_by_denominator(
            buffer@.len() as int,
            1,
            channels as int,
        );
        lemma_mul_inequality(
            mono@.len() as int,
            usize::MAX as int / (TARGET_SAMPLE_RATE as int),
            TARGET_SAMPLE_RATE as int,
        );
        lemma_fundamental_div_mod(usize::MAX as int, TARGET_SAMPLE_RATE as int);
        lemma_mod_bound(usize::MAX as int, TARGET_SAMPLE_RATE as int);
        lemma_mul_is_commutative(
            usize::MAX as int / (TARGET_SAMPLE_RATE as int),
            TARGET_SAMPLE_RATE as int,
        );
        assert(resample_len(mono@.len() as int, rate as int, TARGET_SAMPLE_RATE as int)
            <= usize::MAX) by {
            vstd::arithmetic::div_mod::lemma_div_is_ordered(
                (mono@.len() as int) * (TARGET_SAMPLE_RATE as int),
                usize::MAX as int,
                rate as int,
            );
            vstd::arithmetic::div_mod::lemma_div_is_ordered_by_denominator(
                usize::MAX as int,
                1,
                rate as int,
            );
        }
    }
    let resampled = resample(&mono, rate, TARGET_SAMPLE_RATE);
    proof {
        assert(resampled@ =~= resampled_of(mono@, rate as int, TARGET_SAMPLE_RATE as int));
        assert(resampled@ == processed_of(buffer@, channels as int, rate as int));
    }
    if resampled.len() < MIN_SAMPLES {
        return Err(CaptureError::TooShort);
    }
    Ok(resampled)
}

} // verus!
