use minutes_core::capture::{
    attribution_source_label, confidence_label, debug_speaker_map, first_words,
    infer_capture_backend, AttributionSource, Confidence, SpeakerAttribution,
};
use minutes_core::hotkey::{KEYCODE_CAPS_LOCK, KEYCODE_FN};

#[test]
fn constants_are_correct() {
    assert_eq!(KEYCODE_CAPS_LOCK, 57);
    assert_eq!(KEYCODE_FN, 63);
}

#[test]
fn infer_capture_backend_prefers_native_call_path() {
    assert_eq!(
        infer_capture_backend("/Users/test/.minutes/native-captures/2026-04-08-083713-call.mov", None),
        "native-call"
    );
    assert_eq!(infer_capture_backend("/Users/test/.minutes/jobs/job-123.wav", None), "cpal");
    assert_eq!(infer_capture_backend("/x/a.WAV", None), "cpal");
    assert_eq!(infer_capture_backend("/x/a.m4a", Some("iphone")), "iphone");
    assert_eq!(infer_capture_backend("/x/a.m4a", None), "unknown");
    assert_eq!(infer_capture_backend("/x/.wav", None), "unknown");
}

#[test]
fn first_words_marks_truncation() {
    assert_eq!(first_words("  one two   three four ", 3), "one two three...");
    assert_eq!(first_words("one two", 3), "one two");
    assert_eq!(first_words("", 3), "");
}

#[test]
fn speaker_map_labels() {
    assert_eq!(confidence_label(Confidence::Medium), "medium");
    assert_eq!(attribution_source_label(AttributionSource::Enrollment), "enrollment");
    let rows = debug_speaker_map(&vec![SpeakerAttribution {
        speaker_label: "SPEAKER_0".into(),
        name: "Alex".into(),
        confidence: Confidence::High,
        source: AttributionSource::Llm,
    }]);
    assert_eq!(rows.len(), 1);
    assert_eq!(rows[0].confidence, "high");
    assert_eq!(rows[0].source, "llm");
    assert_eq!(rows[0].name, "Alex");
}
