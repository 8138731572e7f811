//! Recording session orchestration: the state machine that takes a
//! session from idle through recording to transcription and back, and the
//! push-to-talk / toggle decisions behind the global hotkey.
//!
//! Capturing audio, sleeping, and running models happen on the desktop
//! layer's threads; it feeds every outcome back in as an event and
//! carries out the action the step decides.

use vstd::prelude::*;

verus! {

/// Recordings shorter than this many milliseconds are discarded without
/// transcription.
pub const MIN_RECORDING_MS: u64 = 100;

/// Where a recording session stands.
#[derive(Debug, Clone, Copy, PartialEq, Eq, Structural)]
pub enum SessionPhase {
    /// No session running.
    Idle,
    /// Audio is being captured.
    Recording,
    /// Captured audio is being transcribed.
    Transcribing,
}

/// Device options for transcription inference.
#[derive(Debug, Clone, Copy, PartialEq, Eq, Structural)]
pub enum SttDevice {
    /// CPU (always available).
    Cpu,
    /// GPU acceleration.
    Gpu,
}

impl Default for SttDevice {
    /// The CPU backend, which is always available.
    fn default() -> (r: Self)
        ensures
            r == SttDevice::Cpu,
    {
        SttDevice::Cpu
    }
}

/// Hotkey interaction modes.
#[derive(Debug, Clone, Copy, PartialEq, Eq, Structural)]
pub enum HotkeyMode {
    /// Hold to record, release to stop.
    PushToTalk,
    /// Press to start, press again to stop.
    Toggle,
}

/// Hotkey event types.
#[derive(Debug, Clone, Copy, PartialEq, Eq, Structural)]
pub enum HotkeyEvent {
    /// Start recording.
    RecordStart,
    /// Stop recording.
    RecordStop,
}

/// What happened, fed into the session state machine.
#[derive(Debug, Clone, Copy, PartialEq, Eq, Structural)]
pub enum SessionEvent {
    /// A start signal arrived (hotkey or call).
    StartRequested,
    /// A stop signal arrived (hotkey or call).
    StopRequested,
    /// One audio chunk was scored by the voice-activity detector.
    ChunkScored { is_speech: bool, should_stop: bool },
    /// The capture stream could not be created or started.
    CaptureFailed,
    /// Capture ended; the buffer holds this many milliseconds.
    RecordingStopped { duration_ms: u64 },
    /// Transcription ended, successfully or not.
    TranscriptionFinished { succeeded: bool },
}

/// What the desktop layer must do next.
#[derive(Debug, Clone, Copy, PartialEq, Eq, Structural)]
pub enum SessionAction {
    /// Nothing to do.
    Stay,
    /// Start capturing audio.
    BeginCapture,
    /// Stop the capture stream.
    StopCapture,
    /// Drop the captured buffer without transcribing (too short).
    DiscardRecording,
    /// Transcribe the captured buffer.
    BeginTranscription,
    /// Deliver the transcription through the output handler.
    DeliverResult,
    /// Surface a failure to the status/log channel; the session is over.
    ReportFailure,
}

/// One recording session's state machine.
#[derive(Debug, Clone)]
pub struct RecordingSession {
    phase: SessionPhase,
    vad_enabled: bool,
    min_duration_ms: u64,
}

impl RecordingSession {
    /// The phase the session is in.
    pub closed spec fn spec_phase(self) -> SessionPhase {
        self.phase
    }

    /// Whether silence auto-stop is on.
    pub closed spec fn spec_vad_enabled(self) -> bool {
        self.vad_enabled
    }

    /// The shortest recording worth transcribing, in milliseconds.
    pub closed spec fn spec_min_duration_ms(self) -> u64 {
        self.min_duration_ms
    }

    /// A new idle session.
    pub fn new(vad_enabled: bool) -> (r: Self)
        ensures
            r.spec_phase() == SessionPhase::Idle,
            r.spec_vad_enabled() == vad_enabled,
            r.spec_min_duration_ms() == MIN_RECORDING_MS,
    {
        RecordingSession { phase: SessionPhase::Idle, vad_enabled, min_duration_ms: MIN_RECORDING_MS }
    }

    /// The phase the session is in.
    pub fn phase(&self) -> (r: SessionPhase)
        ensures
            r == self.spec_phase(),
    {
        self.phase
    }

    /// Whether the session is recording.
    pub fn is_recording(&self) -> (r: bool)
        ensures
            r == (self.spec_phase() == SessionPhase::Recording),
    {
        match self.phase {
            SessionPhase::Recording => true,
            _ => false,
        }
    }

    /// Whether the session is transcribing.
    pub fn is_transcribing(&self) -> (r: bool)
        ensures
            r == (self.spec_phase() == SessionPhase::Transcribing),
    {
        match self.phase {
            SessionPhase::Transcribing => true,
            _ => false,
        }
    }

    /// The whole transition table: from a phase and an event to the next
    /// phase and the action to carry out.
    ///
    /// A start signal is honoured only when idle (the reentrancy guard);
    /// a stop signal while recording stops the capture stream; a scored
    /// chunk stops it too when auto-stop is on and sustained silence was
    /// reached; a closed capture shorter than the minimum is discarded,
    /// any other is transcribed; a failed capture ends the session with a
    /// report; a finished transcription returns to idle, delivering its
    /// result on success and reporting on failure, never raising the
    /// failure to whoever sent the start signal. Nothing cancels a
    /// transcription already running.
    pub open spec fn spec_step(
        phase: SessionPhase,
        vad_enabled: bool,
        min_duration_ms: u64,
        event: SessionEvent,
    ) -> (SessionPhase, SessionAction) {
        match (phase, event) {
            (SessionPhase::Idle, SessionEvent::StartRequested) => (
                SessionPhase::Recording,
                SessionAction::BeginCapture,
            ),
            (SessionPhase::Recording, SessionEvent::StopRequested) => (
                SessionPhase::Recording,
                SessionAction::StopCapture,
            ),
            (SessionPhase::Recording, SessionEvent::ChunkScored { is_speech, should_stop }) => {
                if vad_enabled && should_stop {
                    (SessionPhase::Recording, SessionAction::StopCapture)
                } else {
                    (SessionPhase::Recording, SessionAction::Stay)
                }
            },
            (SessionPhase::Recording, SessionEvent::RecordingStopped { duration_ms }) => {
                if duration_ms < min_duration_ms {
                    (SessionPhase::Idle, SessionAction::DiscardRecording)
                } else {
                    (SessionPhase::Transcribing, SessionAction::BeginTranscription)
                }
            },
            (SessionPhase::Recording, SessionEvent::CaptureFailed) => (
                SessionPhase::Idle,
                SessionAction::ReportFailure,
            ),
            (SessionPhase::Transcribing, SessionEvent::TranscriptionFinished { succeeded }) => {
                if succeeded {
                    (SessionPhase::Idle, SessionAction::DeliverResult)
                } else {
                    (SessionPhase::Idle, SessionAction::ReportFailure)
                }
            },
            (p, _) => (p, SessionAction::Stay),
        }
    }

    /// Feed one event through the session: the phase moves and the action
    /// comes back exactly as `spec_step` says; the configuration stays.
    pub fn step(&mut self, event: SessionEvent) -> (r: SessionAction)
        ensures
            (final(self).spec_phase(), r) == Self::spec_step(
                old(self).spec_phase(),
                old(self).spec_vad_enabled(),
                old(self).spec_min_duration_ms(),
                event,
            ),
            final(self).spec_vad_enabled() == old(self).spec_vad_enabled(),
            final(self).spec_min_duration_ms() == old(self).spec_min_duration_ms(),
    {
        match (self.phase, event) {
            (SessionPhase::Idle, SessionEvent::StartRequested) => {
                self.phase = SessionPhase::Recording;
                SessionAction::BeginCapture
            },
            (SessionPhase::Recording, SessionEvent::StopRequested) => SessionAction::StopCapture,
            (SessionPhase::Recording, SessionEvent::ChunkScored { is_speech: _, should_stop }) => {
                if self.vad_enabled && should_stop {
                    SessionAction::StopCapture
                } else {
                    SessionAction::Stay
                }
            },
            (SessionPhase::Recording, SessionEvent::RecordingStopped { duration_ms }) => {
                if duration_ms < self.min_duration_ms {
                    self.phase = SessionPhase::Idle;
                    SessionAction::DiscardRecording
                } else {
                    self.phase = SessionPhase::Transcribing;
                    SessionAction::BeginTranscription
                }
            },
            (SessionPhase::Recording, SessionEvent::CaptureFailed) => {
                self.phase = SessionPhase::Idle;
                SessionAction::ReportFailure
            },
            (SessionPhase::Transcribing, SessionEvent::TranscriptionFinished { succeeded }) => {
                self.phase = SessionPhase::Idle;
                if succeeded {
                    SessionAction::DeliverResult
                } else {
                    SessionAction::ReportFailure
                }
            },
            (_, _) => SessionAction::Stay,
        }
    }
}

/// The hotkey listener's decisions: which key transitions raise which
/// recording events, for both interaction modes.
#[derive(Debug, Clone)]
pub struct HotkeyState {
    mode: HotkeyMode,
    main_key_pressed: bool,
    toggled_recording: bool,
}

impl HotkeyState {
    /// The interaction mode.
    pub closed spec fn spec_mode(self) -> HotkeyMode {
        self.mode
    }

    /// Whether the main key is held.
    pub closed spec fn spec_main_key_pressed(self) -> bool {
        self.main_key_pressed
    }

    /// Whether toggle mode currently considers a recording on.
    pub closed spec fn spec_toggled_recording(self) -> bool {
        self.toggled_recording
    }

    /// A fresh listener state.
    pub fn new(mode: HotkeyMode) -> (r: Self)
        ensures
            r.spec_mode() == mode,
            !r.spec_main_key_pressed(),
            !r.spec_toggled_recording(),
    {
        HotkeyState { mode, main_key_pressed: false, toggled_recording: false }
    }

    /// A key went down. When it is the hotkey, all required modifiers are
    /// held, and the key was not already down: push-to-talk starts a
    /// recording; toggle starts one or stops the one it started. Any
    /// other key changes nothing.
    pub fn on_key_press(&mut self, is_target_key: bool, all_modifiers_pressed: bool) -> (r: Option<
        HotkeyEvent,
    >)
        ensures
            final(self).spec_mode() == old(self).spec_mode(),
            ({
                let fires = is_target_key && all_modifiers_pressed && !old(self).spec_main_key_pressed();
                if !fires {
                    r is None && *final(self) == *old(self)
                } else {
                    &&& final(self).spec_main_key_pressed()
                    &&& (old(self).spec_mode() == HotkeyMode::PushToTalk ==> r == Some(
                        HotkeyEvent::RecordStart,
                    ) && final(self).spec_toggled_recording() == old(self).spec_toggled_recording())
                    &&& (old(self).spec_mode() == HotkeyMode::Toggle ==> final(self).spec_toggled_recording() == !old(self).spec_toggled_recording() && r == Some(
                        if old(self).spec_toggled_recording() {
                            HotkeyEvent::RecordStop
                        } else {
                            HotkeyEvent::RecordStart
                        },
                    ))
                }
            }),
    {
        if !(is_target_key && all_modifiers_pressed && !self.main_key_pressed) {
            return None;
        }
        self.main_key_pressed = true;
        match self.mode {
            HotkeyMode::PushToTalk => Some(HotkeyEvent::RecordStart),
            HotkeyMode::Toggle => {
                let was_recording = self.toggled_recording;
                self.toggled_recording = !was_recording;
                if was_recording {
                    Some(HotkeyEvent::RecordStop)
                } else {
                    Some(HotkeyEvent::RecordStart)
                }
            },
        }
    }

    /// A key went up. When it is the hotkey and it was down, the hold
    /// ends; push-to-talk stops the recording, toggle does nothing until
    /// the next press. Any other key changes nothing.
    pub fn on_key_release(&mut self, is_target_key: bool) -> (r: Option<HotkeyEvent>)
        ensures
            final(self).spec_mode() == old(self).spec_mode(),
            final(self).spec_toggled_recording() == old(self).spec_toggled_recording(),
            ({
                let fires = is_target_key && old(self).spec_main_key_pressed();
                if !fires {
                    r is None && *final(self) == *old(self)
                } else {
                    &&& !final(self).spec_main_key_pressed()
                    &&& r == (if old(self).spec_mode() == HotkeyMode::PushToTalk {
                        Some(HotkeyEvent::RecordStop)
                    } else {
                        None::<HotkeyEvent>
                    })
                }
            }),
    {
        if !(is_target_key && self.main_key_pressed) {
            return None;
        }
        self.main_key_pressed = false;
        match self.mode {
            HotkeyMode::PushToTalk => Some(HotkeyEvent::RecordStop),
            HotkeyMode::Toggle => None,
        }
    }

    /// Forget the toggle state (for toggle mode, when a session ends on
    /// its own).
    pub fn reset_recording_state(&mut self)
        ensures
            final(self).spec_mode() == old(self).spec_mode(),
            final(self).spec_main_key_pressed() == old(self).spec_main_key_pressed(),
            !final(self).spec_toggled_recording(),
    {
        self.toggled_recording = false;
    }
}

} // verus!
