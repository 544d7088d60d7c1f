use minutes_core::errors::PidError;
use minutes_core::markdown::ContentType;
use minutes_core::pid::{
    claim_pid_file, current_wav_path, dictation_pid_path, holder_pid, idle_processing_status,
    last_result_path, live_transcript_jsonl_path, live_transcript_pid_path,
    live_transcript_status_path, live_transcript_wav_path, pid_from_file, pid_from_locked_file,
    pid_path, processing_status, processing_status_path, recording_meta_path,
    settle_processing_status, stop_sentinel_path, CaptureMode, pid_file_state, pid_in_file,
    PidFileState,
};

#[test]
fn state_files_live_in_the_state_directory() {
    let dir = "/home/u/.minutes";
    assert_eq!(pid_path(dir), "/home/u/.minutes/recording.pid");
    assert_eq!(dictation_pid_path(dir), "/home/u/.minutes/dictation.pid");
    assert_eq!(live_transcript_pid_path(dir), "/home/u/.minutes/live-transcript.pid");
    assert_eq!(live_transcript_jsonl_path(dir), "/home/u/.minutes/live-transcript.jsonl");
    assert_eq!(live_transcript_wav_path(dir), "/home/u/.minutes/live-transcript.wav");
    assert_eq!(live_transcript_status_path(dir), "/home/u/.minutes/live-transcript-status.json");
    assert_eq!(recording_meta_path(dir), "/home/u/.minutes/recording-meta.json");
    assert_eq!(current_wav_path(dir), "/home/u/.minutes/current.wav");
    assert_eq!(last_result_path(dir), "/home/u/.minutes/last-result.json");
    assert_eq!(processing_status_path(dir), "/home/u/.minutes/processing-status.json");
    assert_eq!(stop_sentinel_path("/s/"), "/s/recording.stop");
}

#[test]
fn capture_modes_name_their_artifacts() {
    assert_eq!(CaptureMode::Meeting.content_type(), ContentType::Meeting);
    assert_eq!(CaptureMode::LiveTranscript.content_type(), ContentType::Meeting);
    assert_eq!(CaptureMode::QuickThought.content_type(), ContentType::Memo);
    assert_eq!(CaptureMode::Dictation.content_type(), ContentType::Dictation);
    assert_eq!(CaptureMode::QuickThought.noun(), "quick thought");
    assert_eq!(CaptureMode::LiveTranscript.noun(), "live transcript");
}

#[test]
fn pid_files_parse_like_str_parse() {
    assert_eq!(pid_from_file(" 1234\n").ok(), Some(1234));
    assert_eq!(pid_from_file("+7").ok(), Some(7));
    assert!(matches!(pid_from_file("abc"), Err(PidError::StalePid(0))));
    assert!(matches!(pid_from_file("-5"), Err(PidError::StalePid(0))));
    assert!(matches!(pid_from_file("4294967296"), Err(PidError::StalePid(0))));
    assert_eq!(pid_from_file("4294967295").ok(), Some(u32::MAX));
    assert_eq!(pid_from_locked_file("  \n").ok(), Some(None));
    assert_eq!(pid_from_locked_file("42").ok(), Some(Some(42)));
    assert!(pid_from_locked_file("x").is_err());
    assert_eq!(holder_pid(Some("99")), 99);
    assert_eq!(holder_pid(Some("junk")), 0);
    assert_eq!(holder_pid(None), 0);
}

#[test]
fn live_holder_blocks_a_claim() {
    assert!(matches!(claim_pid_file(Some(42), true), Err(PidError::AlreadyRecording(42))));
    assert!(claim_pid_file(Some(42), false).is_ok());
    assert!(claim_pid_file(Some(0), true).is_ok());
    assert!(claim_pid_file(None, true).is_ok());
}

#[test]
fn processing_status_round_trip() {
    let status = processing_status(Some("transcribing"), Some(CaptureMode::Meeting), Some("Standup"), Some("job-1"), 2, 77);
    assert!(status.processing);
    assert_eq!(status.stage.as_deref(), Some("transcribing"));
    assert_eq!(status.owner_pid, 77);
    assert_eq!(status.job_count, 2);
    let (kept, remove) = settle_processing_status(Some(status.clone()), true);
    assert!(kept.processing && !remove);
    let (idle, remove) = settle_processing_status(Some(status), false);
    assert!(!idle.processing && remove);
    let (idle, remove) = settle_processing_status(None, true);
    assert!(!idle.processing && idle.owner_pid == 0 && !remove);
    assert_eq!(idle_processing_status().job_count, 0);
}

#[test]
fn pid_file_state_is_stale_unless_a_live_process_holds_it() {

    assert_eq!(pid_in_file(" 42\n"), Some(42));
    assert_eq!(pid_in_file("garbage"), None);
    assert_eq!(pid_file_state(Some(42), true), PidFileState::Active(42));
    assert_eq!(pid_file_state(Some(42), false), PidFileState::Stale);
    assert_eq!(pid_file_state(pid_in_file("garbage"), false), PidFileState::Stale);
}
