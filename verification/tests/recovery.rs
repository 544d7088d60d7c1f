use minutes_core::capture::PipelineStage;
use minutes_core::markdown::ContentType;
use minutes_core::recovery::{
    elapsed_label, missing_item_error, preserved_capture_item, recovery_newest_first,
    retry_content_type, retry_failure_notice, retry_refusal, retry_stage_label,
    retry_success_notice, shows_recording, stale_recording_item, watch_failed_item,
};

#[test]
fn recovery_items_describe_what_was_found() {
    let stale = stale_recording_item("/Users/me/.minutes/current.wav");
    assert_eq!(stale.kind, "stale-recording");
    assert_eq!(stale.title, "Unprocessed live recording");
    assert_eq!(stale.retry_type, "meeting");
    let preserved = preserved_capture_item("/m/failed-captures/2026-04-08-call-audio.wav");
    assert_eq!(preserved.kind, "preserved-capture");
    assert_eq!(preserved.title, "2026 04 08 call audio");
    let watched = watch_failed_item("/inbox/failed/.wav", "memo");
    assert_eq!(watched.kind, "watch-failed");
    assert_eq!(watched.retry_type, "memo");
}

#[test]
fn recovery_items_are_listed_newest_first() {
    let found = vec![
        (10u128, stale_recording_item("/a")),
        (30u128, preserved_capture_item("/b.wav")),
        (10u128, watch_failed_item("/c.wav", "memo")),
        (20u128, preserved_capture_item("/d.wav")),
    ];
    let items = recovery_newest_first(found);
    let paths: Vec<&str> = items.iter().map(|i| i.path.as_str()).collect();
    assert_eq!(paths, vec!["/b.wav", "/d.wav", "/a", "/c.wav"]);
    assert!(recovery_newest_first(Vec::new()).is_empty());
}

#[test]
fn retrying_recovery_items() {
    assert_eq!(
        retry_refusal(false, true).as_deref(),
        Some("Finish the current recording before retrying recovery items.")
    );
    assert_eq!(retry_refusal(false, false), None);
    assert_eq!(missing_item_error("/x.wav"), "Recovery item not found: /x.wav");
    assert_eq!(retry_content_type("meeting"), Ok(ContentType::Meeting));
    assert_eq!(retry_content_type("memo"), Ok(ContentType::Memo));
    assert_eq!(
        retry_content_type("dictation"),
        Err("Unsupported recovery type: dictation".to_string())
    );
    assert_eq!(retry_stage_label(PipelineStage::Diarizing), "Identifying speakers...");
    let ok = retry_success_notice("Weekly Sync", "/m/sync.md");
    assert_eq!(ok.kind, "saved");
    assert_eq!(ok.detail, "Recovery item was processed successfully.");
    let bad = retry_failure_notice("/x.wav", "boom");
    assert_eq!(bad.title, "Retry failed");
    assert_eq!(bad.detail, "Recovery retry failed: boom");
}

#[test]
fn status_elapsed_time() {
    assert_eq!(elapsed_label(" 100\n", 165).as_deref(), Some("1:05"));
    assert_eq!(elapsed_label("100", 100 + 3600 + 42).as_deref(), Some("60:42"));
    assert_eq!(elapsed_label("200", 100).as_deref(), Some("0:00"));
    assert_eq!(elapsed_label("soon", 100), None);
    assert!(shows_recording(true, false, true));
    assert!(shows_recording(false, true, false));
    assert!(!shows_recording(false, true, true));
}
