use minutes_core::capture::DictationEvent;
use minutes_core::dictation::{
    dictation_start_refusal, event_carries_level, event_state_name, session_end_state,
    daily_note_header, dictation_duration, dictation_note_entry, notice_event, utterance_plan,
    AudioInput, DictationLoop, DictationStep, Notice,
};

fn speech(samples: u64) -> AudioInput {
    AudioInput::Chunk { speaking: true, samples }
}

fn silence() -> AudioInput {
    AudioInput::Chunk { speaking: false, samples: 1600 }
}

#[test]
fn speech_then_silence_closes_the_utterance_and_times_out() {
    let mut s = DictationLoop::new(120, 300);
    assert_eq!(s.max_utterance_samples, 1_920_000);
    assert_eq!(
        s.step(speech(1600)),
        vec![DictationStep::Notify(Notice::Accumulating), DictationStep::FeedChunk]
    );
    assert_eq!(s.step(speech(1600)), vec![DictationStep::FeedChunk]);
    assert_eq!(s.utterance_samples, 3200);
    assert_eq!(
        s.step(silence()),
        vec![
            DictationStep::Notify(Notice::Processing),
            DictationStep::FinalizeUtterance,
            DictationStep::ResetStreaming,
            DictationStep::Notify(Notice::Listening),
            DictationStep::Notify(Notice::SilenceCountdown { total_ms: 300, remaining_ms: 200 }),
        ]
    );
    assert_eq!(
        s.step(silence()),
        vec![DictationStep::Notify(Notice::SilenceCountdown { total_ms: 300, remaining_ms: 100 })]
    );
    assert_eq!(s.step(silence()), vec![DictationStep::Finish]);
}

#[test]
fn silence_before_speech_never_ends_the_session() {
    let mut s = DictationLoop::new(120, 100);
    for _ in 0..50 {
        assert!(s.step(silence()).is_empty());
    }
    assert_eq!(s.total_silence_ms, 5000);
    assert!(!s.has_spoken);
}

#[test]
fn long_utterances_are_cut_at_the_limit() {
    let mut s = DictationLoop::new(1, 2000);
    assert_eq!(s.step(speech(8000)).len(), 2);
    assert_eq!(
        s.step(speech(8000)),
        vec![
            DictationStep::FeedChunk,
            DictationStep::Notify(Notice::Processing),
            DictationStep::FinalizeUtterance,
            DictationStep::ResetStreaming,
            DictationStep::Notify(Notice::Listening),
        ]
    );
    assert_eq!(s.utterance_samples, 0);
    assert!(!s.was_speaking);
    assert!(s.has_spoken);
}

#[test]
fn stop_and_yield_finalize_speech_in_progress() {
    let mut s = DictationLoop::new(120, 2000);
    assert_eq!(
        s.step(AudioInput::Stopped),
        vec![DictationStep::Notify(Notice::Cancelled), DictationStep::Finish]
    );
    s.step(speech(10));
    assert_eq!(
        s.step(AudioInput::RecordingStarted),
        vec![
            DictationStep::Notify(Notice::Processing),
            DictationStep::FinalizeUtterance,
            DictationStep::Notify(Notice::Yielded),
            DictationStep::Finish,
        ]
    );
    assert!(s.step(AudioInput::NoChunk).is_empty());
    assert_eq!(s.step(AudioInput::Disconnected), vec![DictationStep::Finish]);
}

#[test]
fn utterance_plan_follows_destination() {
    assert!(utterance_plan("   ", "clipboard", true).is_none());
    let p = utterance_plan("  hello world ", "clipboard", false).unwrap();
    assert_eq!(p.text, "hello world");
    assert!(p.to_clipboard && p.to_file && !p.to_daily_note);
    let p = utterance_plan("hi", "", true).unwrap();
    assert!(p.to_clipboard && p.to_file && p.to_daily_note);
    let p = utterance_plan("hi", "daily_note", true).unwrap();
    assert!(!p.to_clipboard && !p.to_file);
    let p = utterance_plan("hi", "file", false).unwrap();
    assert!(!p.to_clipboard && p.to_file);
}

#[test]
fn dictation_texts() {
    assert_eq!(dictation_duration(0), "0s");
    assert_eq!(dictation_duration(59), "59s");
    assert_eq!(dictation_duration(60), "1m 0s");
    assert_eq!(dictation_duration(125), "2m 5s");
    assert_eq!(
        dictation_note_entry("09:30", "call Sam"),
        "\n### ~09:30 - Dictation\n- call Sam\n"
    );
    assert_eq!(daily_note_header("2026-04-08"), "# 2026-04-08\n");
    assert_eq!(
        notice_event(Notice::SilenceCountdown { total_ms: 5, remaining_ms: 2 }),
        DictationEvent::SilenceCountdown { total_ms: 5, remaining_ms: 2 }
    );
    assert_eq!(notice_event(Notice::Yielded), DictationEvent::Yielded);
}

#[test]
fn dictation_start_and_overlay_states() {
    assert_eq!(
        dictation_start_refusal(true, true, true).as_deref(),
        Some("Recording in progress — stop recording before dictating")
    );
    assert_eq!(
        dictation_start_refusal(false, false, true).as_deref(),
        Some("Dictation is already in progress.")
    );
    assert_eq!(dictation_start_refusal(false, false, false), None);
    assert_eq!(event_state_name(&DictationEvent::Listening), "listening");
    assert_eq!(event_state_name(&DictationEvent::PartialText("hi".into())), "partial");
    assert_eq!(
        event_state_name(&DictationEvent::SilenceCountdown { total_ms: 1, remaining_ms: 1 }),
        ""
    );
    assert_eq!(event_state_name(&DictationEvent::Yielded), "yielded");
    assert!(event_carries_level(&DictationEvent::Accumulating));
    assert!(!event_carries_level(&DictationEvent::Processing));
    assert_eq!(session_end_state(true), "cancelled");
    assert_eq!(session_end_state(false), "error");
}
