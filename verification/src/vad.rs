//! Streaming voice-activity detection: recurrent model state, chunk
//! validation, silence hysteresis with auto-stop, and batch segmentation.
//!
//! The recurrent speech model itself is an external runtime. The detector
//! owns everything around it: the state vectors threaded through
//! successive calls (kept as raw single-precision bit patterns, so that a
//! reset to all-zero is exact), the probability threshold, and the
//! silence counting that decides when a recording should stop. Callers
//! bundle a chunk with `chunk_input`, run the model, and hand the reply
//! back to `process_chunk` and its relatives; calls must stay strictly
//! sequential per detector instance, since each reply is the model's
//! memory of the audio so far.

use crate::match_result::PPM;
use crate::CoreError;
use vstd::prelude::*;

verus! {

/// Number of samples per chunk (512 samples = 32 ms at 16 kHz).
pub const CHUNK_SIZE: usize = 512;

/// Sample rate the speech model expects (16 kHz).
pub const VAD_SAMPLE_RATE: u32 = 16000;

/// Length of each recurrent state vector (2 layers of 64 units).
pub const VAD_STATE_LEN: usize = 128;

/// Default number of consecutive silent chunks before auto-stop
/// (about 1.5 s at 32 ms per chunk).
pub const DEFAULT_MAX_SILENCE_CHUNKS: usize = 47;

/// One chunk bundled for the recurrent speech model: the samples, the
/// rate they are at, and the current recurrent state (raw single-precision
/// bit patterns).
#[derive(Debug, Clone)]
pub struct VadModelInput {
    /// Exactly `CHUNK_SIZE` fixed-point samples.
    pub samples: Vec<i32>,
    /// Always `VAD_SAMPLE_RATE`.
    pub sample_rate: u32,
    /// Hidden state to feed through, `VAD_STATE_LEN` values.
    pub hidden_state: Vec<u32>,
    /// Cell state to feed through, `VAD_STATE_LEN` values.
    pub cell_state: Vec<u32>,
}

/// What the recurrent speech model replied for one chunk: a speech
/// probability in parts per million and the new recurrent state (raw
/// single-precision bit patterns).
#[derive(Debug, Clone)]
pub struct VadModelReply {
    /// Speech probability in parts per million; values above `PPM` are
    /// clamped by the detector.
    pub probability: u32,
    /// New hidden state; must hold `VAD_STATE_LEN` values.
    pub hidden_state: Vec<u32>,
    /// New cell state; must hold `VAD_STATE_LEN` values.
    pub cell_state: Vec<u32>,
}

impl VadModelReply {
    /// A reply the detector can accept: both state vectors have the
    /// model's state length.
    pub open spec fn wf(self) -> bool {
        &&& self.hidden_state@.len() == VAD_STATE_LEN
        &&& self.cell_state@.len() == VAD_STATE_LEN
    }
}

/// Voice activity detector: recurrent state, threshold, and silence
/// hysteresis.
#[derive(Debug, Clone)]
pub struct VoiceActivityDetector {
    /// Hidden state of the recurrent model, `VAD_STATE_LEN` raw
    /// single-precision bit patterns.
    h: Vec<u32>,
    /// Cell state of the recurrent model, `VAD_STATE_LEN` raw
    /// single-precision bit patterns.
    c: Vec<u32>,
    /// Speech probability threshold in parts per million.
    threshold: u32,
    /// Consecutive silent chunks seen so far.
    silence_chunks: usize,
    /// Silent chunks after which a recording should stop.
    max_silence_chunks: usize,
}

impl VoiceActivityDetector {
    /// Invariant: the threshold is a ratio in [0, 1] and both state
    /// vectors have the model's state length.
    pub closed spec fn wf(self) -> bool {
        &&& self.threshold <= PPM
        &&& self.h@.len() == VAD_STATE_LEN
        &&& self.c@.len() == VAD_STATE_LEN
    }

    /// The hidden state vector.
    pub closed spec fn spec_hidden_state(self) -> Seq<u32> {
        self.h@
    }

    /// The cell state vector.
    pub closed spec fn spec_cell_state(self) -> Seq<u32> {
        self.c@
    }

    /// The speech probability threshold, in parts per million.
    pub closed spec fn spec_threshold(self) -> u32 {
        self.threshold
    }

    /// The consecutive-silence counter.
    pub closed spec fn spec_silence_chunks(self) -> usize {
        self.silence_chunks
    }

    /// The auto-stop limit, in chunks.
    pub closed spec fn spec_max_silence_chunks(self) -> usize {
        self.max_silence_chunks
    }

    /// Create a detector with zeroed recurrent state, a threshold of 0.5,
    /// and the default auto-stop limit.
    pub fn new() -> (r: Self)
        ensures
            r.wf(),
            r.spec_hidden_state() =~= Seq::new(VAD_STATE_LEN as nat, |i: int| 0u32),
            r.spec_cell_state() =~= Seq::new(VAD_STATE_LEN as nat, |i: int| 0u32),
            r.spec_threshold() == 500_000u32,
            r.spec_silence_chunks() == 0,
            r.spec_max_silence_chunks() == DEFAULT_MAX_SILENCE_CHUNKS,
    {
        let h: Vec<u32> = vec![0u32; VAD_STATE_LEN];
        let c: Vec<u32> = vec![0u32; VAD_STATE_LEN];
        assert(h@ =~= Seq::new(VAD_STATE_LEN as nat, |i: int| 0u32));
        assert(c@ =~= Seq::new(VAD_STATE_LEN as nat, |i: int| 0u32));
        VoiceActivityDetector {
            h,
            c,
            threshold: 500_000,
            silence_chunks: 0,
            max_silence_chunks: DEFAULT_MAX_SILENCE_CHUNKS,
        }
    }

    /// Set the speech probability threshold; values above 1.0 are clamped.
    pub fn set_threshold(&mut self, threshold: u32)
        requires
            old(self).wf(),
        ensures
            final(self).wf(),
            final(self).spec_threshold() == if threshold > PPM {
                PPM as u32
            } else {
                threshold
            },
            final(self).spec_hidden_state() == old(self).spec_hidden_state(),
            final(self).spec_cell_state() == old(self).spec_cell_state(),
            final(self).spec_silence_chunks() == old(self).spec_silence_chunks(),
            final(self).spec_max_silence_chunks() == old(self).spec_max_silence_chunks(),
    {
        self.threshold = if threshold > PPM {
            PPM
        } else {
            threshold
        };
    }

    /// Set the auto-stop limit from a duration in milliseconds; each
    /// chunk is 32 ms.
    pub fn set_max_silence_ms(&mut self, ms: u32)
        requires
            old(self).wf(),
        ensures
            final(self).wf(),
            final(self).spec_max_silence_chunks() == ms as int / 32,
            final(self).spec_hidden_state() == old(self).spec_hidden_state(),
            final(self).spec_cell_state() == old(self).spec_cell_state(),
            final(self).spec_threshold() == old(self).spec_threshold(),
            final(self).spec_silence_chunks() == old(self).spec_silence_chunks(),
    {
        self.max_silence_chunks = (ms / 32) as usize;
    }

    /// Reset the recurrent state and the silence counter. Call this at
    /// the start of every recording session: stale recurrent state
    /// corrupts the probabilities of the next session.
    pub fn reset(&mut self)
        requires
            old(self).wf(),
        ensures
            final(self).wf(),
            final(self).spec_hidden_state() =~= Seq::new(VAD_STATE_LEN as nat, |i: int| 0u32),
            final(self).spec_cell_state() =~= Seq::new(VAD_STATE_LEN as nat, |i: int| 0u32),
            final(self).spec_silence_chunks() == 0,
            final(self).spec_threshold() == old(self).spec_threshold(),
            final(self).spec_max_silence_chunks() == old(self).spec_max_silence_chunks(),
    {
        let h: Vec<u32> = vec![0u32; VAD_STATE_LEN];
        let c: Vec<u32> = vec![0u32; VAD_STATE_LEN];
        assert(h@ =~= Seq::new(VAD_STATE_LEN as nat, |i: int| 0u32));
        assert(c@ =~= Seq::new(VAD_STATE_LEN as nat, |i: int| 0u32));
        self.h = h;
        self.c = c;
        self.silence_chunks = 0;
    }

    /// The current speech probability threshold, in parts per million.
    pub fn threshold(&self) -> (r: u32)
        ensures
            r == self.spec_threshold(),
    {
        self.threshold
    }

    /// The consecutive-silence counter.
    pub fn silence_chunk_count(&self) -> (r: usize)
        ensures
            r == self.spec_silence_chunks(),
    {
        self.silence_chunks
    }

    /// The hidden state vector (raw single-precision bit patterns).
    pub fn hidden_state(&self) -> (r: &Vec<u32>)
        ensures
            r@ == self.spec_hidden_state(),
    {
        &self.h
    }

    /// The cell state vector (raw single-precision bit patterns).
    pub fn cell_state(&self) -> (r: &Vec<u32>)
        ensures
            r@ == self.spec_cell_state(),
    {
        &self.c
    }

    /// Chunk size in samples.
    pub fn chunk_size() -> (r: usize)
        ensures
            r == CHUNK_SIZE,
    {
        CHUNK_SIZE
    }

    /// Sample rate the model expects.
    pub fn sample_rate() -> (r: u32)
        ensures
            r == VAD_SAMPLE_RATE,
    {
        VAD_SAMPLE_RATE
    }

    /// Bundle one chunk of audio with the current recurrent state for the
    /// speech model. Fails with `InvalidInput` exactly when the chunk
    /// does not hold `CHUNK_SIZE` samples.
    pub fn chunk_input(&self, samples: &Vec<i32>) -> (r: Result<VadModelInput, CoreError>)
        requires
            self.wf(),
        ensures
            r is Ok <==> samples@.len() == CHUNK_SIZE,
            r matches Ok(inp) ==> inp.samples@ == samples@ && inp.sample_rate == VAD_SAMPLE_RATE
                && inp.hidden_state@ == self.spec_hidden_state() && inp.cell_state@
                == self.spec_cell_state(),
            r is Err ==> (r matches Err(e) && e == CoreError::InvalidInput),
    {
        if samples.len() != CHUNK_SIZE {
            return Err(CoreError::InvalidInput);
        }
        Ok(
            VadModelInput {
                samples: samples.clone(),
                sample_rate: VAD_SAMPLE_RATE,
                hidden_state: self.h.clone(),
                cell_state: self.c.clone(),
            },
        )
    }

    /// Feed one chunk's model reply through the detector: the recurrent
    /// state is replaced by the reply's and the speech probability is
    /// returned, clamped to [0, 1]. Fails with `InvalidInput`, changing
    /// nothing, exactly when the chunk does not hold `CHUNK_SIZE`
    /// samples; fails with `InferenceFailure`, changing nothing, when the
    /// reply's state vectors do not have the model's state length.
    pub fn process_chunk(&mut self, samples: &Vec<i32>, reply: &VadModelReply) -> (r: Result<
        u32,
        CoreError,
    >)
        requires
            old(self).wf(),
        ensures
            final(self).wf(),
            r is Ok <==> (samples@.len() == CHUNK_SIZE && reply.wf()),
            samples@.len() != CHUNK_SIZE ==> (r matches Err(e) && e == CoreError::InvalidInput
                && *final(self) == *old(self)),
            samples@.len() == CHUNK_SIZE && !reply.wf() ==> (r matches Err(e) && e
                == CoreError::InferenceFailure && *final(self) == *old(self)),
            r matches Ok(p) ==> p == Self::spec_clamp_prob(reply.probability) && final(self).spec_hidden_state() == reply.hidden_state@ && final(self).spec_cell_state()
                == reply.cell_state@ && final(self).spec_threshold() == old(self).spec_threshold() && final(self).spec_silence_chunks() == old(self).spec_silence_chunks() && final(self).spec_max_silence_chunks() == old(self).spec_max_silence_chunks(),
    {
        if samples.len() != CHUNK_SIZE {
            return Err(CoreError::InvalidInput);
        }
        if self.accept_reply(reply) {
            Ok(self.clamped_probability(reply))
        } else {
            Err(CoreError::InferenceFailure)
        }
    }

    /// A model probability clamped to [0, 1].
    pub open spec fn spec_clamp_prob(p: u32) -> u32 {
        if p > PPM {
            PPM
        } else {
            p
        }
    }

    fn clamped_probability(&self, reply: &VadModelReply) -> (r: u32)
        ensures
            r == Self::spec_clamp_prob(reply.probability),
    {
        if reply.probability > PPM {
            PPM
        } else {
            reply.probability
        }
    }

    fn accept_reply(&mut self, reply: &VadModelReply) -> (r: bool)
        requires
            old(self).wf(),
        ensures
            final(self).wf(),
            r <==> reply.wf(),
            r ==> final(self).spec_hidden_state() == reply.hidden_state@ && final(self).spec_cell_state() == reply.cell_state@ && final(self).spec_threshold() == old(self).spec_threshold() && final(self).spec_silence_chunks() == old(self).spec_silence_chunks() && final(self).spec_max_silence_chunks() == old(self).spec_max_silence_chunks(),
            !r ==> *final(self) == *old(self),
    {
        if reply.hidden_state.len() != VAD_STATE_LEN || reply.cell_state.len() != VAD_STATE_LEN {
            return false;
        }
        self.h = reply.hidden_state.clone();
        self.c = reply.cell_state.clone();
        true
    }

    /// Whether one chunk's model reply counts as speech: its clamped
    /// probability reaches the threshold. Updates the recurrent state
    /// like `process_chunk` and fails the same way.
    pub fn is_speech(&mut self, samples: &Vec<i32>, reply: &VadModelReply) -> (r: Result<
        bool,
        CoreError,
    >)
        requires
            old(self).wf(),
        ensures
            final(self).wf(),
            r is Ok <==> (samples@.len() == CHUNK_SIZE && reply.wf()),
            samples@.len() != CHUNK_SIZE ==> (r matches Err(e) && e == CoreError::InvalidInput
                && *final(self) == *old(self)),
            samples@.len() == CHUNK_SIZE && !reply.wf() ==> (r matches Err(e) && e
                == CoreError::InferenceFailure && *final(self) == *old(self)),
            r matches Ok(b) ==> b == (Self::spec_clamp_prob(reply.probability)
                >= old(self).spec_threshold()) && final(self).spec_hidden_state()
                == reply.hidden_state@ && final(self).spec_cell_state() == reply.cell_state@
                && final(self).spec_threshold() == old(self).spec_threshold() && final(self).spec_silence_chunks() == old(self).spec_silence_chunks() && final(self).spec_max_silence_chunks() == old(self).spec_max_silence_chunks(),
    {
        let threshold = self.threshold;
        match self.process_chunk(samples, reply) {
            Ok(p) => Ok(p >= threshold),
            Err(e) => Err(e),
        }
    }

    /// Process one chunk's model reply and decide whether to auto-stop:
    /// a speech chunk clears the silence counter, a silent chunk advances
    /// it (saturating), and the session should stop once the counter
    /// reaches the limit. Returns `(is_speech, should_stop)`; fails like
    /// `process_chunk`, changing nothing.
    pub fn process_and_check_stop(&mut self, samples: &Vec<i32>, reply: &VadModelReply) -> (r:
        Result<(bool, bool), CoreError>)
        requires
            old(self).wf(),
        ensures
            final(self).wf(),
            r is Ok <==> (samples@.len() == CHUNK_SIZE && reply.wf()),
            samples@.len() != CHUNK_SIZE ==> (r matches Err(e) && e == CoreError::InvalidInput
                && *final(self) == *old(self)),
            samples@.len() == CHUNK_SIZE && !reply.wf() ==> (r matches Err(e) && e
                == CoreError::InferenceFailure && *final(self) == *old(self)),
            r matches Ok(v) ==> ({
                let speech = Self::spec_clamp_prob(reply.probability) >= old(self).spec_threshold();
                &&& v.0 == speech
                &&& final(self).spec_silence_chunks() == (if speech {
                    0int
                } else if old(self).spec_silence_chunks() == usize::MAX {
                    usize::MAX as int
                } else {
                    old(self).spec_silence_chunks() + 1
                })
                &&& v.1 == (final(self).spec_silence_chunks()
                    >= final(self).spec_max_silence_chunks())
                &&& final(self).spec_hidden_state() == reply.hidden_state@
                &&& final(self).spec_cell_state() == reply.cell_state@
                &&& final(self).spec_threshold() == old(self).spec_threshold()
                &&& final(self).spec_max_silence_chunks() == old(self).spec_max_silence_chunks()
            }),
    {
        let speech = match self.is_speech(samples, reply) {
            Ok(b) => b,
            Err(e) => {
                return Err(e);
            },
        };
        if speech {
            self.silence_chunks = 0;
        } else if self.silence_chunks < usize::MAX {
            self.silence_chunks = self.silence_chunks + 1;
        }
        let should_stop = self.silence_chunks >= self.max_silence_chunks;
        Ok((speech, should_stop))
    }
}

/// How many chunks a buffer of `len` samples splits into: `len / 512`
/// rounded up.
pub open spec fn spec_chunk_count(len: int) -> int {
    (len + CHUNK_SIZE - 1) / (CHUNK_SIZE as int)
}

/// Every chunk of a buffer starts strictly inside it.
proof fn lemma_chunk_start_bound(len: int, k: int)
    requires
        0 <= k < spec_chunk_count(len),
    ensures
        k * CHUNK_SIZE < len,
        k * CHUNK_SIZE <= (spec_chunk_count(len) - 1) * CHUNK_SIZE,
    decreases 0int,
{
    let count = spec_chunk_count(len);
    vstd::arithmetic::div_mod::lemma_fundamental_div_mod(len + CHUNK_SIZE - 1, CHUNK_SIZE as int);
    vstd::arithmetic::div_mod::lemma_mod_bound(len + CHUNK_SIZE - 1, CHUNK_SIZE as int);
    assert((count - 1) * CHUNK_SIZE == count * CHUNK_SIZE - CHUNK_SIZE) by (nonlinear_arith);
    assert(count * CHUNK_SIZE == (CHUNK_SIZE as int) * count) by (nonlinear_arith);
    vstd::arithmetic::mul::lemma_mul_inequality(k, count - 1, CHUNK_SIZE as int);
}

/// Split a buffer into chunks of `CHUNK_SIZE` samples; the final chunk is
/// shorter when the buffer length is not a multiple.
pub fn split_into_chunks(samples: &Vec<i32>) -> (r: Vec<Vec<i32>>)
    ensures
        r@.len() == spec_chunk_count(samples@.len() as int),
        forall|k: int|
            0 <= k < r@.len() ==> (#[trigger] r@[k])@ == samples@.subrange(
                k * CHUNK_SIZE,
                if (k + 1) * CHUNK_SIZE <= samples@.len() {
                    (k + 1) * (CHUNK_SIZE as int)
                } else {
                    samples@.len() as int
                },
            ),
{
    let len = samples.len();
    let mut r: Vec<Vec<i32>> = Vec::new();
    if len == 0 {
        return r;
    }
    let count = ((len as u128 + CHUNK_SIZE as u128 - 1) / (CHUNK_SIZE as u128)) as usize;
    assert(count == spec_chunk_count(len as int)) by {
        vstd::arithmetic::div_mod::lemma_div_nonincreasing(
            len as int + CHUNK_SIZE - 1,
            CHUNK_SIZE as int,
        );
        vstd::arithmetic::div_mod::lemma_div_pos_is_pos(
            len as int + CHUNK_SIZE - 1,
            CHUNK_SIZE as int,
        );
    }
    for k in 0..count
        invariant
            len == samples@.len(),
            len > 0,
            count == spec_chunk_count(len as int),
            r@.len() == k,
            forall|j: int|
                0 <= j < k ==> (#[trigger] r@[j])@ == samples@.subrange(
                    j * CHUNK_SIZE,
                    if (j + 1) * CHUNK_SIZE <= len {
                        (j + 1) * (CHUNK_SIZE as int)
                    } else {
                        len as int
                    },
                ),
    {
        proof {
            lemma_chunk_start_bound(len as int, k as int);
        }
        let start = k * CHUNK_SIZE;
        let end = if len - start < CHUNK_SIZE {
            len
        } else {
            start + CHUNK_SIZE
        };
        let mut chunk: Vec<i32> = Vec::new();
        let mut j = start;
        while j < end
            invariant
                start <= j <= end <= len,
                len == samples@.len(),
                chunk@ == samples@.subrange(start as int, j as int),
            decreases end - j,
        {
            chunk.push(samples[j]);
            proof {
                assert(samples@.subrange(start as int, j + 1 as int) =~= samples@.subrange(
                    start as int,
                    j as int,
                ).push(samples@[j as int]));
            }
            j = j + 1;
        }
        r.push(chunk);
    }
    r
}

/// Zero-pad a short final chunk up to `CHUNK_SIZE` samples. Fails with
/// `InvalidInput` exactly when the chunk is already longer than a chunk.
pub fn pad_to_chunk(chunk: &Vec<i32>) -> (r: Result<Vec<i32>, CoreError>)
    ensures
        r is Ok <==> chunk@.len() <= CHUNK_SIZE,
        r matches Ok(p) ==> p@.len() == CHUNK_SIZE && p@.subrange(0, chunk@.len() as int)
            == chunk@ && forall|i: int| chunk@.len() <= i < CHUNK_SIZE ==> p@[i] == 0i32,
        r is Err ==> (r matches Err(e) && e == CoreError::InvalidInput),
{
    if chunk.len() > CHUNK_SIZE {
        return Err(CoreError::InvalidInput);
    }
    let mut p = chunk.clone();
    assert(p@ =~= chunk@);
    while p.len() < CHUNK_SIZE
        invariant
            chunk@.len() <= p@.len() <= CHUNK_SIZE,
            p@.subrange(0, chunk@.len() as int) == chunk@,
            forall|i: int| chunk@.len() <= i < p@.len() ==> p@[i] == 0i32,
        decreases CHUNK_SIZE - p@.len(),
    {
        let ghost before = p@;
        p.push(0);
        proof {
            assert(p@.subrange(0, chunk@.len() as int) =~= before.subrange(
                0,
                chunk@.len() as int,
            ));
        }
    }
    Ok(p)
}

/// The speech segments the edge-triggered scan finds from chunk `i`
/// onward, given whether a segment is open and where it started: a
/// false-to-true transition opens a segment at the chunk's first sample,
/// a true-to-false transition closes it at the chunk's first sample, and
/// a segment still open at the end of the buffer is closed at `total`.
pub open spec fn spec_segments_from(
    flags: Seq<bool>,
    i: int,
    in_speech: bool,
    start: usize,
    total: usize,
) -> Seq<(usize, usize)>
    decreases flags.len() - i,
{
    if i < 0 || i >= flags.len() {
        if in_speech {
            seq![(start, total)]
        } else {
            Seq::empty()
        }
    } else if flags[i] && !in_speech {
        spec_segments_from(flags, i + 1, true, (i * CHUNK_SIZE) as usize, total)
    } else if !flags[i] && in_speech {
        seq![(start, (i * CHUNK_SIZE) as usize)] + spec_segments_from(flags, i + 1, false, 0, total)
    } else {
        spec_segments_from(flags, i + 1, in_speech, start, total)
    }
}

/// The speech segments of a whole buffer, from its per-chunk speech
/// flags.
pub open spec fn spec_speech_segments(flags: Seq<bool>, total: usize) -> Seq<(usize, usize)> {
    spec_segments_from(flags, 0, false, 0, total)
}

/// Turn per-chunk speech flags into contiguous speech-segment sample
/// ranges `(start_sample, end_sample)`, edge-triggered: a segment opens
/// on the first speech chunk, closes on the first silent chunk after it,
/// and a segment still open at the end of the buffer is closed at the
/// buffer length. `flags` holds one speech decision per chunk of
/// `samples`, in order.
pub fn detect_speech_segments(samples: &Vec<i32>, flags: &Vec<bool>) -> (r: Vec<(usize, usize)>)
    requires
        flags@.len() == spec_chunk_count(samples@.len() as int),
    ensures
        r@ == spec_speech_segments(flags@, samples@.len() as usize),
{
    let len = samples.len();
    let n = flags.len();
    let mut segments: Vec<(usize, usize)> = Vec::new();
    let mut in_speech = false;
    let mut speech_start: usize = 0;
    assert(segments@ + spec_segments_from(flags@, 0, false, 0, len) =~= spec_speech_segments(
        flags@,
        len,
    ));
    for i in 0..n
        invariant
            n == flags@.len(),
            len == samples@.len(),
            n == spec_chunk_count(len as int),
            segments@ + spec_segments_from(flags@, i as int, in_speech, speech_start, len)
                == spec_speech_segments(flags@, len),
        decreases n - i,
    {
        proof {
            lemma_chunk_start_bound(len as int, i as int);
        }
        let ghost before = segments@;
        let ghost tail = spec_segments_from(flags@, i as int, in_speech, speech_start, len);
        if flags[i] && !in_speech {
            speech_start = i * CHUNK_SIZE;
            in_speech = true;
        } else if !flags[i] && in_speech {
            let seg_end = i * CHUNK_SIZE;
            segments.push((speech_start, seg_end));
            proof {
                assert(before + tail =~= segments@ + spec_segments_from(
                    flags@,
                    i + 1 as int,
                    false,
                    0,
                    len,
                ));
            }
            in_speech = false;
            speech_start = 0;
        }
    }
    if in_speech {
        let ghost before = segments@;
        segments.push((speech_start, len));
        proof {
            assert(before + spec_segments_from(flags@, n as int, true, speech_start, len)
                =~= segments@);
        }
    } else {
        proof {
            assert(segments@ + spec_segments_from(flags@, n as int, false, speech_start, len)
                =~= segments@);
        }
    }
    segments
}

} // verus!
