use minutes_core::events::{
    audio_processed_event, events_path, events_tail_start, needs_rotation,
    recording_completed_event, rotated_events_name, MinutesEvent,
};
use minutes_core::markdown::{ContentType, WriteResult};

fn result() -> WriteResult {
    WriteResult {
        path: "/tmp/test.md".into(),
        title: "Test Meeting".into(),
        word_count: 100,
        content_type: ContentType::Memo,
    }
}

#[test]
fn recording_completed_event_copies_the_result() {
    match recording_completed_event(&result(), "5m") {
        MinutesEvent::RecordingCompleted { path, title, word_count, content_type, duration } => {
            assert_eq!(path, "/tmp/test.md");
            assert_eq!(title, "Test Meeting");
            assert_eq!(word_count, 100);
            assert_eq!(content_type, "memo");
            assert_eq!(duration, "5m");
        }
        _ => panic!("expected RecordingCompleted"),
    }
}

#[test]
fn audio_processed_event_names_the_source() {
    match audio_processed_event(&result(), "/in/a.m4a") {
        MinutesEvent::AudioProcessed { content_type, source_path, .. } => {
            assert_eq!(content_type, "memo");
            assert_eq!(source_path, "/in/a.m4a");
        }
        _ => panic!("expected AudioProcessed"),
    }
}

#[test]
fn event_log_rotation_and_tail() {
    assert_eq!(events_path("/s"), "/s/events.jsonl");
    assert!(!needs_rotation(10 * 1024 * 1024 - 1));
    assert!(needs_rotation(10 * 1024 * 1024));
    assert_eq!(rotated_events_name("2026-03-19"), "events.2026-03-19.jsonl");
    assert_eq!(events_tail_start(10, Some(3)), 7);
    assert_eq!(events_tail_start(2, Some(3)), 0);
    assert_eq!(events_tail_start(5, None), 0);
}
