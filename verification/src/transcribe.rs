//! The transcription engine's state around the speech-to-text model: what
//! is loaded, which language is asked for, and when transcription may
//! proceed.
//!
//! The model runtime itself (loading a model file, running inference) is
//! an external collaborator; the engine here owns the decisions: no
//! transcription before a model is loaded, audio is prepared to mono
//! 16 kHz first, and the result record carries the language setting along.

use crate::audio::{spec_resample, spec_to_mono, AudioData, WHISPER_SAMPLE_RATE};
use crate::CoreError;
use vstd::prelude::*;

verus! {

/// Result of a transcription.
#[derive(Debug, Clone)]
pub struct TranscriptionResult {
    /// Transcribed text.
    pub text: String,
    /// Detected or requested language.
    pub language: Option<String>,
    /// Transcription duration in milliseconds.
    pub duration_ms: u64,
}

/// Transcription engine state: which model is loaded and which language
/// transcription should use.
#[derive(Debug, Clone)]
pub struct WhisperEngine {
    /// Path of the loaded model, if one is loaded.
    model_path: Option<String>,
    /// Language to transcribe in; nothing means auto-detect.
    language: Option<String>,
}

impl WhisperEngine {
    /// The path of the loaded model, if one is loaded.
    pub closed spec fn spec_model_path(self) -> Option<String> {
        self.model_path
    }

    /// Whether a model is loaded.
    pub open spec fn spec_is_loaded(self) -> bool {
        self.spec_model_path() is Some
    }

    /// The language setting; nothing means auto-detect.
    pub closed spec fn spec_language(self) -> Option<String> {
        self.language
    }

    /// Create a new engine with no model loaded and language auto-detect.
    pub fn new() -> (r: Self)
        ensures
            !r.spec_is_loaded(),
            r.spec_model_path() is None,
            r.spec_language() is None,
    {
        WhisperEngine { model_path: None, language: None }
    }

    /// Record that the model runtime loaded a model from this path. The
    /// next transcription may proceed.
    pub fn mark_loaded(&mut self, path: String)
        ensures
            final(self).spec_is_loaded(),
            final(self).spec_model_path() matches Some(p) && p@ == path@,
            final(self).spec_language() == old(self).spec_language(),
    {
        self.model_path = Some(path);
    }

    /// Unload the current model; transcription needs a load first again.
    pub fn unload_model(&mut self)
        ensures
            !final(self).spec_is_loaded(),
            final(self).spec_model_path() is None,
            final(self).spec_language() == old(self).spec_language(),
    {
        self.model_path = None;
    }

    /// Whether a model is loaded.
    pub fn is_loaded(&self) -> (r: bool)
        ensures
            r == self.spec_is_loaded(),
    {
        self.model_path.is_some()
    }

    /// The path of the loaded model, if any.
    pub fn model_path(&self) -> (r: Option<&String>)
        ensures
            r is Some <==> self.spec_is_loaded(),
            r matches Some(p) ==> (self.spec_model_path() matches Some(q) && p@ == q@),
    {
        self.model_path.as_ref()
    }

    /// Set the language for transcription; nothing means auto-detect.
    pub fn set_language(&mut self, language: Option<String>)
        ensures
            final(self).spec_language() == language,
            final(self).spec_model_path() == old(self).spec_model_path(),
    {
        self.language = language;
    }

    /// The current language setting.
    pub fn language(&self) -> (r: Option<&String>)
        ensures
            r is Some <==> self.spec_language() is Some,
            r matches Some(l) ==> (self.spec_language() matches Some(m) && l@ == m@),
    {
        self.language.as_ref()
    }

    /// Admit audio to transcription: fails with `ModelNotLoaded` exactly
    /// when no model is loaded, and otherwise hands back the audio
    /// prepared for the model (mono, 16 kHz).
    pub fn begin_transcription(&self, audio: &AudioData) -> (r: Result<AudioData, CoreError>)
        requires
            audio.wf(),
            audio.samples@.len() as int * WHISPER_SAMPLE_RATE / (audio.sample_rate as int)
                <= usize::MAX,
        ensures
            r is Ok <==> self.spec_is_loaded(),
            !self.spec_is_loaded() ==> (r matches Err(e) && e == CoreError::ModelNotLoaded),
            r matches Ok(prepared) ==> prepared.wf() && prepared.channels == 1
                && prepared.sample_rate == WHISPER_SAMPLE_RATE && prepared.samples@
                == spec_resample(
                spec_to_mono(audio.samples@, audio.channels as int),
                audio.sample_rate as int,
                WHISPER_SAMPLE_RATE as int,
            ),
    {
        if self.model_path.is_none() {
            return Err(CoreError::ModelNotLoaded);
        }
        Ok(audio.prepare_for_whisper())
    }

    /// Assemble the result record for a finished transcription: the text
    /// the model produced, the engine's language setting, and how long
    /// inference took.
    pub fn finish_transcription(&self, text: String, duration_ms: u64) -> (r: TranscriptionResult)
        ensures
            r.text@ == text@,
            r.duration_ms == duration_ms,
            r.language is Some <==> self.spec_language() is Some,
            r.language matches Some(l) ==> (self.spec_language() matches Some(m) && l@ == m@),
    {
        let language = match self.language.as_ref() {
            Some(l) => Some(l.clone()),
            None => None,
        };
        TranscriptionResult { text, language, duration_ms }
    }
}

} // verus!
