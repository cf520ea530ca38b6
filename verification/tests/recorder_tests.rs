use fluxvoice::recorder::{AudioRecorder, CaptureError, process_recording};

#[test]
fn stop_with_empty_accumulator_is_rejected() {
    let mut rec = AudioRecorder::new();
    rec.start_recording();
    let r = rec.stop_recording();
    assert_eq!(r.unwrap_err(), CaptureError::NoAudioCaptured);
}

#[test]
fn short_recording_is_rejected_with_duration_error() {
    let mut rec = AudioRecorder::new();
    rec.start_recording();
    rec.set_source_format(16000, 1);
    let chunk: Vec<i16> = vec![100; 7999];
    rec.append_samples(&chunk);
    let r = rec.stop_recording();
    assert_eq!(r.unwrap_err(), CaptureError::TooShort);
}

#[test]
fn exactly_minimum_length_recording_is_accepted() {
    let mut rec = AudioRecorder::new();
    rec.start_recording();
    rec.set_source_format(16000, 1);
    let chunk: Vec<i16> = vec![100; 8000];
    rec.append_samples(&chunk);
    let bytes = rec.stop_recording().unwrap();
    assert_eq!(bytes.len(), 44 + 2 * 8000);
}

#[test]
fn stop_resamples_from_the_source_rate() {
    let mut rec = AudioRecorder::new();
    rec.start_recording();
    rec.set_source_format(32000, 1);
    // 16000 samples at 32 kHz become 8000 at 16 kHz: just enough.
    let chunk: Vec<i16> = vec![7; 16000];
    rec.append_samples(&chunk);
    let bytes = rec.stop_recording().unwrap();
    assert_eq!(bytes.len(), 44 + 2 * 8000);
}

#[test]
fn stop_mixes_stereo_down_before_the_duration_check() {
    let mut rec = AudioRecorder::new();
    rec.start_recording();
    rec.set_source_format(16000, 2);
    // 15998 interleaved stereo samples are only 7999 mono frames.
    let chunk: Vec<i16> = vec![5; 15998];
    rec.append_samples(&chunk);
    assert_eq!(rec.stop_recording().unwrap_err(), CaptureError::TooShort);
}

#[test]
fn restart_discards_all_samples_of_the_first_session() {
    let mut rec = AudioRecorder::new();
    let was = rec.start_recording();
    assert!(!was);
    rec.set_source_format(16000, 1);
    let chunk: Vec<i16> = vec![42; 20000];
    rec.append_samples(&chunk);
    assert_eq!(rec.buffer_len(), 20000);

    // A second start without a stop terminates the first session and
    // begins with an empty accumulator.
    let was = rec.start_recording();
    assert!(was);
    assert_eq!(rec.buffer_len(), 0);
    assert_eq!(rec.stop_recording().unwrap_err(), CaptureError::NoAudioCaptured);
}

#[test]
fn level_meter_reads_the_live_accumulator() {
    let mut rec = AudioRecorder::new();
    assert_eq!(rec.get_audio_level(), 0);
    rec.start_recording();
    let chunk: Vec<i16> = vec![1000; 500];
    rec.append_samples(&chunk);
    assert_eq!(rec.get_audio_level(), 10000);
}

#[test]
fn process_recording_pipeline() {
    let empty: Vec<i16> = Vec::new();
    assert_eq!(
        process_recording(&empty, 1, 16000).unwrap_err(),
        CaptureError::NoAudioCaptured
    );

    let stereo: Vec<i16> = vec![10, 20, 30, 40];
    let processed = process_recording(&stereo, 2, 16000);
    // Too short, but the pipeline decision is about length only.
    assert_eq!(processed.unwrap_err(), CaptureError::TooShort);

    let long: Vec<i16> = vec![9; 8000];
    let out = process_recording(&long, 1, 16000).unwrap();
    assert_eq!(out, vec![9; 8000]);
}

#[test]
fn error_messages_are_descriptive() {
    assert_eq!(
        CaptureError::NoAudioCaptured.message(),
        "No audio data captured. Microphone may not be working."
    );
    assert_eq!(
        CaptureError::TooShort.message(),
        "Recording too short. Please hold the key longer."
    );
    assert_eq!(CaptureError::EncodeFailed.message(), "Failed to encode audio.");
}

#[test]
fn stop_resets_the_accumulator() {
    let mut rec = AudioRecorder::new();
    rec.start_recording();
    rec.set_source_format(16000, 1);
    let chunk: Vec<i16> = vec![100; 8000];
    rec.append_samples(&chunk);
    assert!(rec.stop_recording().is_ok());
    assert_eq!(rec.buffer_len(), 0);
    assert_eq!(rec.get_audio_level(), 0);
    // A second stop finds nothing to read out.
    assert_eq!(rec.stop_recording().unwrap_err(), CaptureError::NoAudioCaptured);
}

#[test]
fn setup_failure_aborts_back_to_idle() {
    let mut rec = AudioRecorder::new();
    rec.start_recording();
    rec.abort_recording();
    // The next start finds no session to terminate.
    assert!(!rec.start_recording());
}
