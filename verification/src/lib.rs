//! Desktop-automation core: multi-scale template matching with
//! non-maximum suppression, and a voice-activity-gated transcription
//! pipeline (audio preparation, VAD hysteresis, session orchestration).

pub mod audio;
pub mod draw;
pub mod frame;
pub mod match_config;
pub mod match_result;
pub mod matcher;
pub mod models;
pub mod nms;
pub mod output;
pub mod session;
pub mod transcribe;
pub mod vad;

use vstd::prelude::*;

verus! {

/// Errors surfaced by the library's components.
#[derive(Debug, Clone, Copy, PartialEq, Eq, Structural)]
pub enum CoreError {
    /// Malformed geometry or a wrong-sized input buffer.
    InvalidInput,
    /// Transcription or voice-activity detection invoked before a model
    /// was loaded; recoverable by loading one.
    ModelNotLoaded,
    /// The underlying model runtime reported an error.
    InferenceFailure,
    /// A capture or playback stream could not be created or started.
    DeviceFailure,
}

} // verus!
