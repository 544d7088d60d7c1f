use minutes_core::capture::PipelineStage;
use minutes_core::pipeline::{
    check_audio, enrich_first_stage, transcript_frontmatter, TranscriptFacts, next_pipeline_stage, downloaded_models, model_download_message, model_download_url, model_file_name,
    output_status_label, post_record_hook_args,
};
use minutes_core::attribution::has_self_profile;
use minutes_core::errors::TranscribeError;
use minutes_core::markdown::ContentType;
use minutes_core::pipeline::{
    audio_path_allowed, default_source, enriched_status, estimate_duration, merge_attendees,
    needs_diarization, not_allowed_error, recording_status, recording_title, summarizer_input,
    transcript_status, OutputStatus,
};
use minutes_core::transcript::{label_single_source, stem_transcript};

fn strings(v: &[&str]) -> Vec<String> {
    v.iter().map(|s| s.to_string()).collect()
}

#[test]
fn estimate_duration_formats_correctly() {
    // 32000 bytes/sec * 90 sec + 44 header = 2_880_044 bytes
    assert_eq!(estimate_duration(2_880_044), "1m 30s");
}

#[test]
fn estimate_duration_edges() {
    assert_eq!(estimate_duration(0), "0s");
    assert_eq!(estimate_duration(44), "0s");
    assert_eq!(estimate_duration(44 + 32_000 * 59), "59s");
    assert_eq!(estimate_duration(44 + 32_000 * 60), "1m 0s");
    assert_eq!(estimate_duration(44 + 32_000 * 3_725 + 31_999), "62m 5s");
}

#[test]
fn status_follows_word_minimum_and_summary_engine() {
    assert_eq!(recording_status(2, 3, "agent"), OutputStatus::NoSpeech);
    assert_eq!(recording_status(3, 3, "agent"), OutputStatus::Complete);
    assert_eq!(recording_status(3, 3, "none"), OutputStatus::TranscriptOnly);
    assert_eq!(transcript_status(0, 1), OutputStatus::NoSpeech);
    assert_eq!(transcript_status(10, 1), OutputStatus::TranscriptOnly);
    assert_eq!(enriched_status("none"), OutputStatus::TranscriptOnly);
    assert_eq!(enriched_status("ollama"), OutputStatus::Complete);
}

#[test]
fn diarization_runs_only_for_meetings() {
    assert!(needs_diarization("pyannote", ContentType::Meeting));
    assert!(!needs_diarization("none", ContentType::Meeting));
    assert!(!needs_diarization("pyannote", ContentType::Memo));
}

#[test]
fn summarizer_reads_notes_first() {
    assert_eq!(summarizer_input("hello", None), "hello");
    assert_eq!(
        summarizer_input("hello", Some("pricing")),
        "USER NOTES (these moments were marked as important — weight them heavily):\npricing\n\nTRANSCRIPT:\nhello"
    );
}

#[test]
fn attendees_merge_without_case_insensitive_repeats() {
    let merged = merge_attendees(
        &strings(&["Alex", "alex"]),
        &strings(&["ALEX", "", "Sam", "sam", "Jo"]),
    );
    assert_eq!(merged, strings(&["Alex", "alex", "Sam", "Jo"]));
    let fresh = merge_attendees(&Vec::new(), &strings(&["Mat", "MAT", "Alex"]));
    assert_eq!(fresh, strings(&["Mat", "Alex"]));
}

#[test]
fn title_prefers_given_then_calendar_then_generated() {
    assert_eq!(
        recording_title(Some("Given"), OutputStatus::NoSpeech, Some("Roadmap sync"), "", None),
        "Given"
    );
    assert_eq!(
        recording_title(None, OutputStatus::NoSpeech, Some("Roadmap sync"), "x", None),
        "Untitled Recording"
    );
    assert_eq!(
        recording_title(None, OutputStatus::Complete, Some("roadmap sync"), "hello there", None),
        "Roadmap Sync"
    );
    assert_eq!(
        recording_title(None, OutputStatus::Complete, Some("meeting"), "", Some("pricing review")),
        "Pricing Review"
    );
}

#[test]
fn source_defaults_by_content_type() {
    assert_eq!(default_source(Some("iphone"), ContentType::Memo).as_deref(), Some("iphone"));
    assert_eq!(default_source(None, ContentType::Memo).as_deref(), Some("voice-memos"));
    assert_eq!(default_source(None, ContentType::Meeting), None);
    assert_eq!(default_source(None, ContentType::Dictation).as_deref(), Some("dictation"));
}

#[test]
fn audio_must_lie_in_an_allowed_directory() {
    let allowed = vec![Some("/Users/me/audio".to_string()), None];
    assert!(audio_path_allowed(Some("/Users/me/audio/a.wav"), &allowed));
    assert!(!audio_path_allowed(Some("/Users/me/audio2/a.wav"), &allowed));
    assert!(!audio_path_allowed(Some("/tmp/a.wav"), &allowed));
    assert!(audio_path_allowed(Some("/tmp/a.wav"), &Vec::new()));
    assert!(audio_path_allowed(None, &allowed));
    assert!(!audio_path_allowed(Some("/tmp/a.wav"), &vec![None]));
    match not_allowed_error("/tmp/a.wav") {
        TranscribeError::UnsupportedFormat(m) => {
            assert_eq!(m, "file not in allowed directories: /tmp/a.wav")
        }
        _ => panic!("wrong error"),
    }
}

#[test]
fn single_stem_transcripts_are_labelled() {
    assert_eq!(
        label_single_source("[0:00] hi\n[0:03] there\n", 0),
        "[SPEAKER_0 0:00] hi\n[SPEAKER_0 0:03] there"
    );
    assert_eq!(label_single_source("no timestamps", 1), "no timestamps");
    assert_eq!(
        stem_transcript(None, Some("[0:01] remote")).as_deref(),
        Some("[SPEAKER_1 0:01] remote")
    );
    assert_eq!(
        stem_transcript(Some("[0:00] a"), Some("[0:01] b")).as_deref(),
        Some("[SPEAKER_0 0:00] a\n[SPEAKER_1 0:01] b")
    );
    assert_eq!(stem_transcript(None, None), None);
}

#[test]
fn self_profile_is_found_by_slug() {
    assert!(has_self_profile(Some("Mat Silva"), &strings(&["mat-silva"])));
    assert!(!has_self_profile(Some("Mat"), &strings(&["alex"])));
    assert!(!has_self_profile(None, &strings(&["mat"])));
}

#[test]
fn downloaded_models_follow_the_known_order() {
    let files = strings(&["ggml-small.bin", "notes.txt", "ggml-tiny.en.bin", "ggml-large-v3-q5.bin"]);
    assert_eq!(downloaded_models(&files), strings(&["tiny", "small", "large-v3"]));
    assert!(downloaded_models(&Vec::new()).is_empty());
    assert_eq!(output_status_label(OutputStatus::NoSpeech), "no-speech");
    assert_eq!(output_status_label(OutputStatus::TranscriptOnly), "transcript-only");
    assert_eq!(output_status_label(OutputStatus::Complete), "complete");
}

#[test]
fn post_record_hook_passes_path_as_argument() {
    let args = post_record_hook_args("notify-send", "/m/2024-01-01 standup.md");
    assert_eq!(
        args,
        vec![
            "-c".to_string(),
            "notify-send \"$1\"".to_string(),
            "--".to_string(),
            "/m/2024-01-01 standup.md".to_string()
        ]
    );
}

#[test]
fn model_download_names() {
    assert_eq!(model_file_name("small"), "ggml-small.bin");
    assert_eq!(
        model_download_url("base"),
        "https://huggingface.co/ggerganov/whisper.cpp/resolve/main/ggml-base.bin"
    );
    assert_eq!(model_download_message("small", true, 0), "Model 'small' already downloaded");
    assert_eq!(
        model_download_message("small", false, 487_601_967),
        "Downloaded 'small' model (465 MB)"
    );
}

#[test]
fn audio_check_refuses_empty_then_disallowed_files() {
    assert!(matches!(check_audio(0, "/a.wav", false), Err(TranscribeError::EmptyAudio)));
    match check_audio(10, "/a.wav", false) {
        Err(TranscribeError::UnsupportedFormat(m)) => assert_eq!(m, "file not in allowed directories: /a.wav"),
        other => panic!("unexpected {:?}", other),
    }
    assert!(check_audio(10, "/a.wav", true).is_ok());
}

#[test]
fn pipeline_stages_follow_the_configuration() {
    let m = ContentType::Meeting;
    assert_eq!(next_pipeline_stage(PipelineStage::Transcribing, m, "pyannote", "agent"), Some(PipelineStage::Diarizing));
    assert_eq!(next_pipeline_stage(PipelineStage::Transcribing, ContentType::Memo, "pyannote", "agent"), Some(PipelineStage::Summarizing));
    assert_eq!(next_pipeline_stage(PipelineStage::Transcribing, m, "none", "none"), Some(PipelineStage::Saving));
    assert_eq!(next_pipeline_stage(PipelineStage::Diarizing, m, "pyannote", "none"), Some(PipelineStage::Saving));
    assert_eq!(next_pipeline_stage(PipelineStage::Summarizing, m, "pyannote", "agent"), Some(PipelineStage::Saving));
    assert_eq!(next_pipeline_stage(PipelineStage::Saving, m, "pyannote", "agent"), None);
    assert_eq!(enrich_first_stage(OutputStatus::NoSpeech, m, "pyannote", "agent"), None);
    assert_eq!(enrich_first_stage(OutputStatus::TranscriptOnly, m, "pyannote", "agent"), Some(PipelineStage::Diarizing));
}

fn facts(words: usize) -> TranscriptFacts {
    TranscriptFacts {
        content_type: ContentType::Memo,
        given_title: None,
        word_count: words,
        min_words: 3,
        calendar_title: None,
        attendees: vec!["Alex Doe".to_string()],
        pre_context: None,
        sidecar_source: None,
        device: Some("iPhone".to_string()),
        captured_at: None,
        date: "2026-03-19T10:00:00+00:00".to_string(),
        duration: "2m 5s".to_string(),
        recorded_by: Some("Mat".to_string()),
        diagnosis: "all segments filtered".to_string(),
    }
}

#[test]
fn transcript_frontmatter_for_silence() {
    let fm = transcript_frontmatter(&facts(1), "uh");
    assert_eq!(fm.title, "Untitled Recording");
    assert_eq!(fm.status, Some(OutputStatus::NoSpeech));
    assert_eq!(fm.source.as_deref(), Some("voice-memos"));
    assert_eq!(fm.filter_diagnosis.as_deref(), Some("all segments filtered"));
    assert_eq!(fm.people, vec!["Alex Doe".to_string()]);
    assert_eq!(fm.entities.people[0].slug, "alex-doe");
    assert_eq!(fm.device.as_deref(), Some("iPhone"));
    assert!(fm.tags.is_empty() && fm.action_items.is_empty() && fm.speaker_map.is_empty());
}

#[test]
fn transcript_frontmatter_for_speech() {
    let fm = transcript_frontmatter(&facts(40), "We need to discuss the new pricing strategy for Q2");
    assert_eq!(fm.status, Some(OutputStatus::TranscriptOnly));
    assert_eq!(fm.filter_diagnosis, None);
    assert_eq!(fm.duration, "2m 5s");
    assert_eq!(fm.recorded_by.as_deref(), Some("Mat"));
}
