use minutes_core::errors::{
    CaptureError, ConfigError, DictationError, MinutesError, PidError, TranscribeError, VaultError,
};
use minutes_core::platform::Platform;

#[test]
fn error_messages_match_their_formats() {
    assert_eq!(PidError::AlreadyRecording(4242).message(), "already recording (PID: 4242)");
    assert_eq!(PidError::StalePid(0).message(), "stale PID file (process 0 is dead)");
    assert_eq!(CaptureError::StaleRecording(9).message(Platform::Linux), "stale recording found (PID 9 is dead)");
    assert_eq!(
        CaptureError::DeviceNotFound.message(Platform::MacOs),
        "audio device not found \u{2014} is BlackHole installed? Run: brew install blackhole-2ch"
    );
    assert_eq!(
        TranscribeError::EngineNotAvailable("parakeet".into()).message(),
        "engine 'parakeet' not compiled in \u{2014} rebuild with: cargo build --features parakeet"
    );
    assert_eq!(
        TranscribeError::EmptyTranscript(3).message(),
        "transcription produced no text (below 3 word minimum)"
    );
    assert_eq!(
        ConfigError::ParseError("c.toml".into(), "bad".into()).message(),
        "failed to parse config file c.toml: bad"
    );
    assert_eq!(
        VaultError::PermissionDenied("/v".into()).message(Platform::Linux),
        "permission denied: /v"
    );
    assert_eq!(DictationError::AlreadyActive(1).message(), "dictation already active (PID: 1)");
    assert_eq!(
        MinutesError::Pid(PidError::NotRecording).message(Platform::Linux),
        "no recording in progress"
    );
    assert_eq!(MinutesError::Io("disk full".into()).message(Platform::Linux), "I/O error: disk full");
}
