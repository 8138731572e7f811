//! PCM audio buffers and the pure transforms that prepare captured audio
//! for transcription.
//!
//! Samples are fixed-point fractions of full scale in parts per million:
//! `SAMPLE_UNIT` stands for 1.0 and `-SAMPLE_UNIT` for -1.0. The capture
//! layer normalizes every device format into this range.

use vstd::arithmetic::div_mod::{lemma_div_is_ordered, lemma_div_multiples_vanish};
use vstd::arithmetic::mul::{lemma_mul_inequality, lemma_mul_upper_bound};
use vstd::prelude::*;

verus! {

/// Fixed-point unit for samples: one million parts stand for full scale.
pub const SAMPLE_UNIT: i32 = 1_000_000;

/// Target sample rate for the transcription engine (16 kHz).
pub const WHISPER_SAMPLE_RATE: u32 = 16000;

/// Audio input device information.
#[derive(Debug, Clone)]
pub struct AudioDevice {
    /// Device name.
    pub name: String,
    /// Whether this is the default device.
    pub is_default: bool,
}

/// Audio data captured from a microphone: interleaved fixed-point samples
/// normalized to [-1, 1], at a sample rate, with a channel count.
#[derive(Debug, Clone)]
pub struct AudioData {
    /// Interleaved samples, each in `[-SAMPLE_UNIT, SAMPLE_UNIT]`.
    pub samples: Vec<i32>,
    /// Sample rate in Hz.
    pub sample_rate: u32,
    /// Number of channels (1 for mono).
    pub channels: u16,
}

/// The source index the nearest-neighbour resampler reads for output
/// index `i`, when converting `len` samples from `rate` to `target`:
/// `i * rate / target`, clamped to the last sample.
pub open spec fn spec_resample_idx(i: int, rate: int, target: int, len: int) -> int {
    let raw = i * rate / target;
    if raw < len {
        raw
    } else {
        len - 1
    }
}

/// The nearest-neighbour resampling of `s` from `rate` to `target`:
/// `len * target / rate` samples, each read from the scaled source index.
pub open spec fn spec_resample(s: Seq<i32>, rate: int, target: int) -> Seq<i32> {
    Seq::new(
        (s.len() as int * target / rate) as nat,
        |i: int| s[spec_resample_idx(i, rate, target, s.len() as int)],
    )
}

/// The sum of `count` samples of `s` starting at `start`.
pub open spec fn spec_frame_sum(s: Seq<i32>, start: int, count: int) -> int
    decreases count,
{
    if count <= 0 {
        0
    } else {
        spec_frame_sum(s, start, count - 1) + s[start + count - 1]
    }
}

/// The average of frame `i` of `s` at `ch` interleaved channels, rounded
/// down.
pub open spec fn spec_frame_avg(s: Seq<i32>, ch: int, i: int) -> int {
    spec_frame_sum(s, i * ch, ch) / ch
}

/// The mono downmix of `s` at `ch` interleaved channels: one sample per
/// frame, the average of the frame's channels.
pub open spec fn spec_to_mono(s: Seq<i32>, ch: int) -> Seq<i32> {
    Seq::new((s.len() as int / ch) as nat, |i: int| spec_frame_avg(s, ch, i) as i32)
}

impl AudioData {
    /// Invariant: at least one channel, a positive sample rate, whole
    /// frames only, and every sample normalized to [-1, 1].
    pub open spec fn wf(self) -> bool {
        &&& self.channels >= 1
        &&& self.sample_rate >= 1
        &&& self.samples@.len() as int % (self.channels as int) == 0
        &&& forall|i: int|
            0 <= i < self.samples@.len() ==> -SAMPLE_UNIT <= #[trigger] self.samples@[i]
                <= SAMPLE_UNIT
    }

    /// Duration in milliseconds, rounded down; 0 when the sample rate is 0.
    pub fn duration_ms(&self) -> (r: u64)
        requires
            self.samples@.len() as int * 1000 / (if self.sample_rate == 0 {
                1int
            } else {
                self.sample_rate as int
            }) <= u64::MAX,
        ensures
            r == if self.sample_rate == 0 {
                0int
            } else {
                self.samples@.len() as int * 1000 / (self.sample_rate as int)
            },
    {
        if self.sample_rate == 0 {
            return 0;
        }
        let ms = (self.samples.len() as u128) * 1000 / (self.sample_rate as u128);
        ms as u64
    }

    /// Resample to a target rate by nearest-neighbour index scaling. The
    /// sample count is scaled by `target_rate / sample_rate`; resampling
    /// to the current rate reproduces the samples unchanged.
    pub fn resample(&self, target_rate: u32) -> (r: AudioData)
        requires
            self.wf(),
            target_rate >= 1,
            self.samples@.len() as int * target_rate / (self.sample_rate as int) <= usize::MAX,
        ensures
            r.sample_rate == target_rate,
            r.channels == self.channels,
            r.samples@ == spec_resample(
                self.samples@,
                self.sample_rate as int,
                target_rate as int,
            ),
            target_rate == self.sample_rate ==> r.samples@ == self.samples@,
            forall|i: int|
                0 <= i < r.samples@.len() ==> -SAMPLE_UNIT <= #[trigger] r.samples@[i]
                    <= SAMPLE_UNIT,
            self.channels == 1 ==> r.wf(),
    {
        let ghost spec_out = spec_resample(self.samples@, self.sample_rate as int, target_rate as int);
        let len = self.samples.len();
        let rate = self.sample_rate;
        proof {
            lemma_mul_upper_bound(len as int, u64::MAX as int, target_rate as int, u32::MAX as int);
        }
        let new_len_wide = (len as u128) * (target_rate as u128) / (rate as u128);
        let new_len = new_len_wide as usize;
        let mut out: Vec<i32> = Vec::new();
        for i in 0..new_len
            invariant
                len == self.samples@.len(),
                rate == self.sample_rate,
                self.wf(),
                spec_out == spec_resample(self.samples@, rate as int, target_rate as int),
                new_len == spec_out.len(),
                new_len == len as int * target_rate / (rate as int),
                target_rate >= 1,
                out@.len() == i,
                forall|k: int| 0 <= k < i ==> out@[k] == spec_out[k],
        {
            proof {
                lemma_mul_upper_bound(i as int, u64::MAX as int, rate as int, u32::MAX as int);
            }
            let raw = (i as u128) * (rate as u128) / (target_rate as u128);
            let src: usize = if raw >= len as u128 {
                proof {
                    if len == 0 {
                        assert(len as int * target_rate as int == 0) by (nonlinear_arith)
                            requires
                                len == 0usize,
                        ;
                        vstd::arithmetic::div_mod::lemma_basic_div(
                            len as int * target_rate as int,
                            rate as int,
                        );
                        assert(false);
                    }
                }
                len - 1
            } else {
                raw as usize
            };
            proof {
                assert(raw as int == i as int * (rate as int) / (target_rate as int));
                assert(spec_resample_idx(i as int, rate as int, target_rate as int, len as int)
                    == src as int);
            }
            let v = self.samples[src];
            out.push(v);
            proof {
                assert(spec_out[i as int] == v);
            }
        }
        proof {
            assert(out@ =~= spec_out);
            if target_rate == self.sample_rate {
                lemma_resample_identity(self.samples@, self.sample_rate as int);
            }
            if self.channels == 1 {
                assert(out@.len() as int % 1int == 0) by (nonlinear_arith);
            }
        }
        AudioData { samples: out, sample_rate: target_rate, channels: self.channels }
    }

    /// Convert interleaved audio to mono by averaging the channels of
    /// each frame (rounding down). Mono audio comes back unchanged.
    pub fn to_mono(&self) -> (r: AudioData)
        requires
            self.wf(),
        ensures
            r.channels == 1,
            r.sample_rate == self.sample_rate,
            r.samples@ == spec_to_mono(self.samples@, self.channels as int),
            r.samples@.len() == self.samples@.len() as int / (self.channels as int),
            self.channels == 1 ==> r.samples@ == self.samples@,
            r.wf(),
    {
        let ghost spec_out = spec_to_mono(self.samples@, self.channels as int);
        let ch = self.channels as usize;
        let len = self.samples.len();
        let frames = len / ch;
        let mut out: Vec<i32> = Vec::new();
        for f in 0..frames
            invariant
                self.wf(),
                ch == self.channels,
                1 <= ch <= u16::MAX,
                len == self.samples@.len(),
                frames == len as int / (ch as int),
                spec_out == spec_to_mono(self.samples@, self.channels as int),
                frames == spec_out.len(),
                out@.len() == f,
                forall|k: int| 0 <= k < f ==> out@[k] == spec_out[k],
                forall|k: int|
                    0 <= k < f ==> -SAMPLE_UNIT <= #[trigger] out@[k] <= SAMPLE_UNIT,
        {
            proof {
                lemma_mul_inequality(f + 1 as int, len as int / (ch as int), ch as int);
                vstd::arithmetic::div_mod::lemma_fundamental_div_mod(len as int, ch as int);
                vstd::arithmetic::div_mod::lemma_mod_bound(len as int, ch as int);
                assert((len as int / (ch as int)) * (ch as int) == (ch as int) * (len as int / (
                ch as int))) by (nonlinear_arith);
                assert((f + 1) * (ch as int) == f * (ch as int) + (ch as int)) by (nonlinear_arith);
            }
            let base = f * ch;
            let mut sum_shifted: u64 = 0;
            let mut j: usize = 0;
            while j < ch
                invariant
                    j <= ch,
                    1 <= ch <= u16::MAX,
                    base == f * ch,
                    base + ch <= len,
                    len == self.samples@.len(),
                    self.wf(),
                    sum_shifted as int == spec_frame_sum(self.samples@, base as int, j as int) + j
                        * (SAMPLE_UNIT as int),
                decreases ch - j,
            {
                proof {
                    lemma_frame_sum_bounds(self.samples@, base as int, j as int);
                }
                let v = self.samples[base + j];
                sum_shifted = sum_shifted + ((v + SAMPLE_UNIT) as u64);
                j = j + 1;
            }
            proof {
                lemma_frame_sum_bounds(self.samples@, base as int, ch as int);
                let sum = spec_frame_sum(self.samples@, base as int, ch as int);
                vstd::arithmetic::div_mod::lemma_hoist_over_denominator(
                    sum,
                    SAMPLE_UNIT as int,
                    ch as nat,
                );
                lemma_div_multiples_vanish(SAMPLE_UNIT as int, ch as int);
                lemma_div_multiples_vanish(-(SAMPLE_UNIT as int), ch as int);
                lemma_div_is_ordered(sum, (ch as int) * (SAMPLE_UNIT as int), ch as int);
                lemma_div_is_ordered((ch as int) * (-(SAMPLE_UNIT as int)), sum, ch as int);
                assert((ch as int) * (SAMPLE_UNIT as int) == (SAMPLE_UNIT as int) * (
                ch as int)) by (nonlinear_arith);
                assert((ch as int) * (-(SAMPLE_UNIT as int)) == -((ch as int) * (
                SAMPLE_UNIT as int))) by (nonlinear_arith);
            }
            let q = sum_shifted / (ch as u64);
            let avg = (q as i64) - (SAMPLE_UNIT as i64);
            out.push(avg as i32);
            proof {
                assert(spec_out[f as int] == avg as i32);
            }
        }
        proof {
            assert(out@ =~= spec_out);
            if self.channels == 1 {
                lemma_to_mono_identity(self.samples@);
            }
            assert(out@.len() as int % 1int == 0) by (nonlinear_arith);
        }
        AudioData { samples: out, sample_rate: self.sample_rate, channels: 1 }
    }

    /// Prepare audio for the transcription engine: downmix to mono, then
    /// resample to 16 kHz.
    pub fn prepare_for_whisper(&self) -> (r: AudioData)
        requires
            self.wf(),
            self.samples@.len() as int * WHISPER_SAMPLE_RATE / (self.sample_rate as int)
                <= usize::MAX,
        ensures
            r.channels == 1,
            r.sample_rate == WHISPER_SAMPLE_RATE,
            r.samples@ == spec_resample(
                spec_to_mono(self.samples@, self.channels as int),
                self.sample_rate as int,
                WHISPER_SAMPLE_RATE as int,
            ),
            r.wf(),
    {
        let mono = self.to_mono();
        proof {
            vstd::arithmetic::div_mod::lemma_div_nonincreasing(
                self.samples@.len() as int,
                self.channels as int,
            );
            lemma_mul_inequality(
                mono.samples@.len() as int,
                self.samples@.len() as int,
                WHISPER_SAMPLE_RATE as int,
            );
            lemma_div_is_ordered(
                mono.samples@.len() as int * (WHISPER_SAMPLE_RATE as int),
                self.samples@.len() as int * (WHISPER_SAMPLE_RATE as int),
                self.sample_rate as int,
            );
        }
        mono.resample(WHISPER_SAMPLE_RATE)
    }
}

proof fn lemma_frame_sum_bounds(s: Seq<i32>, start: int, count: int)
    requires
        0 <= start,
        start + count <= s.len(),
        count >= 0,
        forall|i: int| 0 <= i < s.len() ==> -SAMPLE_UNIT <= #[trigger] s[i] <= SAMPLE_UNIT,
    ensures
        -(count * (SAMPLE_UNIT as int)) <= spec_frame_sum(s, start, count) <= count * (
        SAMPLE_UNIT as int),
    decreases count,
{
    if count > 0 {
        lemma_frame_sum_bounds(s, start, count - 1);
    }
}

/// Downmixing mono audio reproduces it unchanged.
proof fn lemma_to_mono_identity(s: Seq<i32>)
    ensures
        spec_to_mono(s, 1) == s,
{
    lemma_div_multiples_vanish(s.len() as int, 1);
    assert forall|i: int| 0 <= i < s.len() implies spec_to_mono(s, 1)[i] == s[i] by {
        assert(spec_frame_sum(s, i, 1) == spec_frame_sum(s, i, 0) + s[i]);
        lemma_div_multiples_vanish(s[i] as int, 1);
    }
    assert(spec_to_mono(s, 1) =~= s);
}

/// Resampling a buffer to its own rate reproduces it unchanged.
proof fn lemma_resample_identity(s: Seq<i32>, rate: int)
    requires
        rate >= 1,
    ensures
        spec_resample(s, rate, rate) == s,
{
    assert(spec_resample(s, rate, rate).len() == s.len() as int * rate / rate);
    lemma_div_multiples_vanish(s.len() as int, rate);
    assert(rate * (s.len() as int) == s.len() as int * rate) by (nonlinear_arith);
    assert forall|i: int| 0 <= i < s.len() implies spec_resample(s, rate, rate)[i] == s[i] by {
        lemma_div_multiples_vanish(i, rate);
        assert(rate * i == i * rate) by (nonlinear_arith);
        assert(i * rate / rate == i);
        assert(spec_resample_idx(i, rate, rate, s.len() as int) == i);
    }
    assert(spec_resample(s, rate, rate) =~= s);
}

} // verus!
