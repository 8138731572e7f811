use aumate::audio::AudioData;
use aumate::models::{DownloadProgress, DownloadStatus, ModelInfo, ModelManager};
use aumate::output::{truncate_for_log, OutputCommand, OutputHandler, OutputMode};
use aumate::session::{
    HotkeyEvent, HotkeyMode, HotkeyState, RecordingSession, SessionAction, SessionEvent,
    SessionPhase,
};
use aumate::transcribe::WhisperEngine;
use aumate::vad::{
    detect_speech_segments, pad_to_chunk, split_into_chunks, VadModelReply, VoiceActivityDetector,
};
use aumate::CoreError;

#[test]
fn test_audio_data_duration() {
    let data = AudioData {
        samples: vec![0; 16000],
        sample_rate: 16000,
        channels: 1,
    };
    assert_eq!(data.duration_ms(), 1000);
    assert!(((data.duration_ms() as f64) / 1000.0 - 1.0).abs() < 0.001);
}

#[test]
fn test_audio_data_resample() {
    let data = AudioData {
        samples: vec![0; 48000],
        sample_rate: 48000,
        channels: 1,
    };
    let resampled = data.resample(16000);
    assert_eq!(resampled.sample_rate, 16000);
    assert_eq!(resampled.samples.len(), 16000);
}

#[test]
fn resample_to_own_rate_returns_data_unchanged() {
    let data = AudioData {
        samples: vec![100, -200, 300, -400],
        sample_rate: 8000,
        channels: 1,
    };
    let same = data.resample(8000);
    assert_eq!(same.sample_rate, 8000);
    assert_eq!(same.samples, data.samples);
}

#[test]
fn test_audio_data_to_mono() {
    // Two stereo frames: 0.5 and 1.0 in fixed point.
    let data = AudioData {
        samples: vec![500_000, 500_000, 1_000_000, 1_000_000],
        sample_rate: 16000,
        channels: 2,
    };
    let mono = data.to_mono();
    assert_eq!(mono.channels, 1);
    assert_eq!(mono.samples.len(), 2);
    assert_eq!(mono.samples[0], 500_000);
    assert_eq!(mono.samples[1], 1_000_000);
}

#[test]
fn prepare_for_whisper_gives_mono_16k() {
    let data = AudioData {
        samples: vec![400_000; 32000 * 2],
        sample_rate: 32000,
        channels: 2,
    };
    let prepared = data.prepare_for_whisper();
    assert_eq!(prepared.channels, 1);
    assert_eq!(prepared.sample_rate, 16000);
    assert_eq!(prepared.samples.len(), 16000);
    assert!(prepared.samples.iter().all(|&s| s == 400_000));
}

#[test]
fn test_chunk_size() {
    assert_eq!(VoiceActivityDetector::chunk_size(), 512);
}

#[test]
fn test_sample_rate() {
    assert_eq!(VoiceActivityDetector::sample_rate(), 16000);
}

#[test]
fn test_split_into_chunks() {
    let samples = vec![0; 1024];
    let chunks = split_into_chunks(&samples);
    assert_eq!(chunks.len(), 2);
    assert_eq!(chunks[0].len(), 512);
    assert_eq!(chunks[1].len(), 512);
}

#[test]
fn short_final_chunk_is_kept_and_padded() {
    let samples = vec![7; 600];
    let chunks = split_into_chunks(&samples);
    assert_eq!(chunks.len(), 2);
    assert_eq!(chunks[0].len(), 512);
    assert_eq!(chunks[1].len(), 88);
    let padded = pad_to_chunk(&chunks[1]).unwrap();
    assert_eq!(padded.len(), 512);
    assert!(padded[..88].iter().all(|&s| s == 7));
    assert!(padded[88..].iter().all(|&s| s == 0));
    assert_eq!(
        pad_to_chunk(&vec![0; 513]).unwrap_err(),
        CoreError::InvalidInput
    );
}

fn reply(probability: u32) -> VadModelReply {
    VadModelReply {
        probability,
        hidden_state: vec![1; 128],
        cell_state: vec![2; 128],
    }
}

#[test]
fn wrong_chunk_length_is_invalid_input() {
    let mut vad = VoiceActivityDetector::new();
    let r = vad.process_chunk(&vec![0; 511], &reply(900_000));
    assert_eq!(r.unwrap_err(), CoreError::InvalidInput);
    let r = vad.process_chunk(&vec![0; 513], &reply(900_000));
    assert_eq!(r.unwrap_err(), CoreError::InvalidInput);
    let r = vad.process_chunk(&vec![0; 512], &reply(900_000));
    assert_eq!(r.unwrap(), 900_000);
}

#[test]
fn bad_model_reply_is_inference_failure() {
    let mut vad = VoiceActivityDetector::new();
    let bad = VadModelReply {
        probability: 900_000,
        hidden_state: vec![1; 100],
        cell_state: vec![2; 128],
    };
    let r = vad.process_chunk(&vec![0; 512], &bad);
    assert_eq!(r.unwrap_err(), CoreError::InferenceFailure);
}

#[test]
fn reset_clears_counters_and_state() {
    let mut vad = VoiceActivityDetector::new();
    // A speech chunk, then silent chunks: the counter advances and the
    // model reply's state is taken over.
    let (speech, stop) = vad
        .process_and_check_stop(&vec![0; 512], &reply(900_000))
        .unwrap();
    assert!(speech);
    assert!(!stop);
    let (speech, _) = vad
        .process_and_check_stop(&vec![0; 512], &reply(100_000))
        .unwrap();
    assert!(!speech);
    assert_eq!(vad.silence_chunk_count(), 1);
    assert!(vad.hidden_state().iter().all(|&v| v == 1));
    assert!(vad.cell_state().iter().all(|&v| v == 2));

    vad.reset();
    assert_eq!(vad.silence_chunk_count(), 0);
    assert!(vad.hidden_state().iter().all(|&v| v == 0));
    assert!(vad.cell_state().iter().all(|&v| v == 0));
    assert_eq!(vad.hidden_state().len(), 128);
    assert_eq!(vad.cell_state().len(), 128);
}

#[test]
fn sustained_silence_asks_to_stop() {
    let mut vad = VoiceActivityDetector::new();
    vad.set_threshold(500_000);
    vad.set_max_silence_ms(96); // three chunks of 32 ms
    let chunk = vec![0; 512];
    for i in 0..3 {
        let (speech, stop) = vad.process_and_check_stop(&chunk, &reply(0)).unwrap();
        assert!(!speech);
        assert_eq!(stop, i == 2);
    }
    // Speech clears the counter again.
    let (speech, stop) = vad.process_and_check_stop(&chunk, &reply(800_000)).unwrap();
    assert!(speech);
    assert!(!stop);
    assert_eq!(vad.silence_chunk_count(), 0);
}

#[test]
fn threshold_is_clamped() {
    let mut vad = VoiceActivityDetector::new();
    assert_eq!(vad.threshold(), 500_000);
    vad.set_threshold(2_000_000);
    assert_eq!(vad.threshold(), 1_000_000);
}

#[test]
fn speech_segments_are_edge_triggered() {
    // Four chunks: silence, speech, speech, silence.
    let samples = vec![0; 2048];
    let flags = vec![false, true, true, false];
    let segments = detect_speech_segments(&samples, &flags);
    assert_eq!(segments, vec![(512, 1536)]);

    // A segment still open at the end closes at the buffer length.
    let samples = vec![0; 100];
    let flags = vec![true];
    let segments = detect_speech_segments(&samples, &flags);
    assert_eq!(segments, vec![(0, 100)]);

    // All silence: no segments.
    let samples = vec![0; 1024];
    let flags = vec![false, false];
    let segments = detect_speech_segments(&samples, &flags);
    assert!(segments.is_empty());
}

#[test]
fn test_engine_creation() {
    let engine = WhisperEngine::new();
    assert!(!engine.is_loaded());
    assert!(engine.model_path().is_none());
}

#[test]
fn test_language_setting() {
    let mut engine = WhisperEngine::new();
    assert!(engine.language().is_none());

    engine.set_language(Some("en".to_string()));
    assert_eq!(engine.language().map(|l| l.as_str()), Some("en"));

    engine.set_language(None);
    assert!(engine.language().is_none());
}

#[test]
fn test_transcribe_without_model() {
    let engine = WhisperEngine::new();
    let audio = AudioData {
        samples: vec![0; 16000],
        sample_rate: 16000,
        channels: 1,
    };

    let result = engine.begin_transcription(&audio);
    assert_eq!(result.unwrap_err(), CoreError::ModelNotLoaded);
}

#[test]
fn loaded_engine_prepares_audio() {
    let mut engine = WhisperEngine::new();
    engine.mark_loaded("models/whisper-base.bin".to_string());
    assert!(engine.is_loaded());
    assert_eq!(
        engine.model_path().map(|p| p.as_str()),
        Some("models/whisper-base.bin")
    );

    let audio = AudioData {
        samples: vec![250_000, 250_000],
        sample_rate: 32000,
        channels: 2,
    };
    let prepared = engine.begin_transcription(&audio).unwrap();
    assert_eq!(prepared.channels, 1);
    assert_eq!(prepared.sample_rate, 16000);

    engine.set_language(Some("de".to_string()));
    let result = engine.finish_transcription("hallo".to_string(), 42);
    assert_eq!(result.text, "hallo");
    assert_eq!(result.duration_ms, 42);
    assert_eq!(result.language.as_deref(), Some("de"));

    engine.unload_model();
    assert!(!engine.is_loaded());
}

#[test]
fn test_truncate_for_log() {
    assert_eq!(truncate_for_log("short", 10), "short");
    assert_eq!(truncate_for_log("this is a long string", 10), "this is a ...");
}

#[test]
fn test_output_mode() {
    if let Ok(handler) = OutputHandler::new(OutputMode::Keystrokes) {
        assert_eq!(handler.mode(), OutputMode::Keystrokes);
    }
}

#[test]
fn output_commands_follow_the_mode() {
    let mut handler = OutputHandler::new(OutputMode::Keystrokes).unwrap();
    assert!(matches!(handler.output(""), OutputCommand::Nothing));
    assert!(matches!(handler.output("hi"), OutputCommand::TypeText(s) if s == "hi"));

    handler.set_mode(OutputMode::Clipboard);
    assert!(matches!(handler.output("hi"), OutputCommand::CopyToClipboard(s) if s == "hi"));

    handler.set_mode(OutputMode::Both);
    assert!(matches!(handler.output("hi"), OutputCommand::CopyAndPaste(s) if s == "hi"));

    handler.set_mode(OutputMode::Logger);
    let long = "x".repeat(150);
    match handler.output(&long) {
        OutputCommand::LogOnly(s) => {
            assert_eq!(s.len(), 103);
            assert!(s.ends_with("..."));
        }
        other => panic!("unexpected command: {:?}", other),
    }
}

#[test]
fn test_model_info_size_display() {
    let model = ModelInfo {
        id: "test".to_string(),
        name: "Test".to_string(),
        size_bytes: 142_000_000,
        url: "".to_string(),
        is_downloaded: false,
        local_file: None,
    };
    assert_eq!(model.size_display(), "142 MB");
}

#[test]
fn size_display_covers_all_ranges() {
    let mut model = ModelInfo {
        id: "test".to_string(),
        name: "Test".to_string(),
        size_bytes: 1_500_000_000,
        url: "".to_string(),
        is_downloaded: false,
        local_file: None,
    };
    assert_eq!(model.size_display(), "1.5 GB");
    model.size_bytes = 75_000_000;
    assert_eq!(model.size_display(), "75 MB");
    model.size_bytes = 2_000;
    assert_eq!(model.size_display(), "2 KB");
}

#[test]
fn test_download_progress() {
    let progress = DownloadProgress {
        model_id: "test".to_string(),
        downloaded_bytes: 50,
        total_bytes: 100,
        status: DownloadStatus::Downloading,
    };
    assert_eq!(progress.progress_percent(), "50.0%");
    let unknown = DownloadProgress {
        model_id: "test".to_string(),
        downloaded_bytes: 50,
        total_bytes: 0,
        status: DownloadStatus::Pending,
    };
    assert_eq!(unknown.progress_percent(), "0.0%");
}

#[test]
fn test_list_available_models() {
    if let Ok(manager) = ModelManager::new("models".to_string(), Vec::new()) {
        let models = manager.list_available_models();
        assert!(!models.is_empty());
        assert!(models.iter().any(|m| m.id == "whisper-base"));
    }
}

#[test]
fn model_paths_follow_the_file_list() {
    let manager = ModelManager::new(
        "models".to_string(),
        vec!["whisper-base.bin".to_string(), "silero_vad.onnx".to_string()],
    )
    .unwrap();
    assert_eq!(manager.models_dir().as_str(), "models");
    assert_eq!(
        manager.get_model_path("whisper-base").as_deref(),
        Some("models/whisper-base.bin")
    );
    assert!(manager.get_model_path("whisper-tiny").is_none());
    assert!(manager.is_vad_downloaded());
    assert_eq!(
        manager.get_vad_model_path().as_deref(),
        Some("models/silero_vad.onnx")
    );
    let vad_info = manager.get_vad_model_info();
    assert_eq!(vad_info.id, "silero-vad");
    assert!(vad_info.is_downloaded);

    let downloaded = manager.list_downloaded_models();
    assert_eq!(downloaded.len(), 1);
    assert_eq!(downloaded[0].id, "whisper-base");

    let empty = ModelManager::new("models".to_string(), Vec::new()).unwrap();
    assert!(!empty.is_vad_downloaded());
    assert!(empty.get_vad_model_path().is_none());
    assert!(empty.list_downloaded_models().is_empty());
}

#[test]
fn download_progress_is_recorded_per_model() {
    let mut manager = ModelManager::new("models".to_string(), Vec::new()).unwrap();
    assert!(manager.get_download_progress("whisper-base").is_none());
    manager.record_progress(DownloadProgress {
        model_id: "whisper-base".to_string(),
        downloaded_bytes: 10,
        total_bytes: 100,
        status: DownloadStatus::Downloading,
    });
    manager.record_progress(DownloadProgress {
        model_id: "whisper-base".to_string(),
        downloaded_bytes: 60,
        total_bytes: 100,
        status: DownloadStatus::Downloading,
    });
    let p = manager.get_download_progress("whisper-base").unwrap();
    assert_eq!(p.downloaded_bytes, 60);
    assert!(manager.get_download_progress("whisper-tiny").is_none());
}

#[test]
fn session_guards_and_short_recordings() {
    let mut session = RecordingSession::new(true);
    assert_eq!(session.phase(), SessionPhase::Idle);
    assert!(!session.is_recording());

    // Start; a second start while recording is ignored (reentrancy guard).
    assert_eq!(session.step(SessionEvent::StartRequested), SessionAction::BeginCapture);
    assert!(session.is_recording());
    assert_eq!(session.step(SessionEvent::StartRequested), SessionAction::Stay);

    // A short recording is discarded without transcription.
    assert_eq!(session.step(SessionEvent::StopRequested), SessionAction::StopCapture);
    assert_eq!(
        session.step(SessionEvent::RecordingStopped { duration_ms: 50 }),
        SessionAction::DiscardRecording
    );
    assert_eq!(session.phase(), SessionPhase::Idle);
}

#[test]
fn session_runs_through_transcription() {
    let mut session = RecordingSession::new(true);
    assert_eq!(session.step(SessionEvent::StartRequested), SessionAction::BeginCapture);

    // Chunks without sustained silence keep recording; sustained silence
    // auto-stops.
    assert_eq!(
        session.step(SessionEvent::ChunkScored { is_speech: true, should_stop: false }),
        SessionAction::Stay
    );
    assert_eq!(
        session.step(SessionEvent::ChunkScored { is_speech: false, should_stop: true }),
        SessionAction::StopCapture
    );

    assert_eq!(
        session.step(SessionEvent::RecordingStopped { duration_ms: 1500 }),
        SessionAction::BeginTranscription
    );
    assert!(session.is_transcribing());
    // No reentrancy and no mid-transcription cancel.
    assert_eq!(session.step(SessionEvent::StartRequested), SessionAction::Stay);
    assert_eq!(session.step(SessionEvent::StopRequested), SessionAction::Stay);

    assert_eq!(
        session.step(SessionEvent::TranscriptionFinished { succeeded: true }),
        SessionAction::DeliverResult
    );
    assert_eq!(session.phase(), SessionPhase::Idle);

    // A failing transcription surfaces a report and the session ends.
    session.step(SessionEvent::StartRequested);
    session.step(SessionEvent::RecordingStopped { duration_ms: 1500 });
    assert_eq!(
        session.step(SessionEvent::TranscriptionFinished { succeeded: false }),
        SessionAction::ReportFailure
    );
    assert_eq!(session.phase(), SessionPhase::Idle);

    // A failed capture also ends the session with a report.
    session.step(SessionEvent::StartRequested);
    assert_eq!(session.step(SessionEvent::CaptureFailed), SessionAction::ReportFailure);
    assert_eq!(session.phase(), SessionPhase::Idle);
}

#[test]
fn hotkey_push_to_talk_and_toggle() {
    let mut ptt = HotkeyState::new(HotkeyMode::PushToTalk);
    assert_eq!(ptt.on_key_press(true, true), Some(HotkeyEvent::RecordStart));
    // Key repeat while held does nothing.
    assert_eq!(ptt.on_key_press(true, true), None);
    assert_eq!(ptt.on_key_release(false), None);
    assert_eq!(ptt.on_key_release(true), Some(HotkeyEvent::RecordStop));

    let mut toggle = HotkeyState::new(HotkeyMode::Toggle);
    // Wrong key or missing modifiers do nothing.
    assert_eq!(toggle.on_key_press(false, true), None);
    assert_eq!(toggle.on_key_press(true, false), None);
    assert_eq!(toggle.on_key_press(true, true), Some(HotkeyEvent::RecordStart));
    assert_eq!(toggle.on_key_release(true), None);
    assert_eq!(toggle.on_key_press(true, true), Some(HotkeyEvent::RecordStop));
    assert_eq!(toggle.on_key_release(true), None);

    toggle.on_key_press(true, true); // recording again
    toggle.on_key_release(true);
    toggle.reset_recording_state();
    assert_eq!(toggle.on_key_press(true, true), Some(HotkeyEvent::RecordStart));
}
