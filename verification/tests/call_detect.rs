use minutes_core::call_detect::{
    display_name_for, looks_like_google_meet_meeting_code, looks_like_google_meet_meeting_url,
    lowercase_all, parse_applescript_output, query_browser_urls, AppleScriptProbe, BrowserKind,
    CallDetector, DetectionTransition,
};
use minutes_core::call_detect::{call_notification_title, poll_interval_secs, PollOutcome};
use minutes_core::config::CallDetectionConfig;

fn detector(apps: &[&str]) -> CallDetector {
    CallDetector::new(CallDetectionConfig {
        enabled: true,
        poll_interval_secs: 1,
        cooldown_minutes: 5,
        apps: apps.iter().map(|a| a.to_string()).collect(),
    })
}

#[test]
fn call_session_rearms_when_process_changes_or_ends() {
    let mut detector = detector(&["zoom.us"]);
    assert_eq!(detector.note_active_call("zoom.us", 1_000), DetectionTransition::NewSession);
    assert_eq!(detector.note_active_call("zoom.us", 1_500), DetectionTransition::Noop);
    detector.clear_active_call();
    assert_eq!(detector.note_active_call("zoom.us", 2_000), DetectionTransition::NewSession);
    assert_eq!(detector.note_active_call("face.time", 2_100), DetectionTransition::NewSession);
}

#[test]
fn same_call_is_reminded_after_twenty_seconds() {
    let mut detector = detector(&["zoom.us"]);
    assert_eq!(detector.note_active_call("zoom.us", 0), DetectionTransition::NewSession);
    assert_eq!(detector.note_active_call("zoom.us", 19_999), DetectionTransition::Noop);
    assert_eq!(detector.note_active_call("zoom.us", 20_000), DetectionTransition::Reminder);
    assert_eq!(detector.note_active_call("zoom.us", 30_000), DetectionTransition::Noop);
    assert_eq!(detector.clear_active_call(), Some("zoom.us".to_string()));
    assert_eq!(detector.clear_active_call(), None);
}

#[test]
fn display_names() {
    assert_eq!(display_name_for("zoom.us"), "Zoom");
    assert_eq!(display_name_for("Microsoft Teams"), "Teams");
    assert_eq!(display_name_for("FaceTime"), "FaceTime");
    assert_eq!(display_name_for("google-meet"), "Google Meet");
    assert_eq!(display_name_for("SomeOtherApp"), "SomeOtherApp");
}

#[test]
fn google_meet_detection_is_opt_in_via_sentinel() {
    let detector = detector(&["zoom.us", "google-meet"]);
    assert!(detector.wants_google_meet());
    assert!(!self::detector(&["zoom.us"]).wants_google_meet());
}

#[test]
fn browser_probe_is_skipped_when_no_browser_processes_exist() {
    let mut detector = detector(&["google-meet"]);
    let running: Vec<String> = vec!["Finder".into(), "launchd".into()];
    let lower = lowercase_all(&running);
    assert_eq!(detector.next_browser_probe(&lower, 0, 0), None);
}

#[test]
fn browser_probes_follow_table_order() {
    let mut detector = detector(&["google-meet"]);
    let running: Vec<String> = vec!["Safari".into(), "Google Chrome Helper".into()];
    let lower = lowercase_all(&running);
    assert_eq!(detector.next_browser_probe(&lower, 0, 0), Some((0, BrowserKind::ChromeLike)));
    assert_eq!(detector.next_browser_probe(&lower, 1, 0), Some((3, BrowserKind::Safari)));
    assert!(!detector.record_browser_probe(0, &AppleScriptProbe::PermissionDenied, 0));
    assert_eq!(detector.next_browser_probe(&lower, 0, 1), Some((3, BrowserKind::Safari)));
    let urls = AppleScriptProbe::Urls(vec!["https://meet.google.com/abc-defg-hij".into()]);
    assert!(detector.record_browser_probe(3, &urls, 1));
}

#[test]
fn meet_url_requires_real_meeting_code() {
    assert!(looks_like_google_meet_meeting_url("https://meet.google.com/abc-defg-hij"));
    assert!(looks_like_google_meet_meeting_url("https://meet.google.com/abc-defg-hij?authuser=1"));
    assert!(!looks_like_google_meet_meeting_url("https://meet.google.com/"));
    assert!(!looks_like_google_meet_meeting_url("https://meet.google.com/new"));
    assert!(!looks_like_google_meet_meeting_url("https://meet.google.com/landing"));
    assert!(!looks_like_google_meet_meeting_url("https://example.com/abc-defg-hij"));
}

#[test]
fn meet_url_ignores_case_scheme_and_padding() {
    assert!(looks_like_google_meet_meeting_url("  MEET.GOOGLE.COM/ABC-DEFG-HIJ/ "));
    assert!(looks_like_google_meet_meeting_url("http://meet.google.com/abc-defg-hij#x"));
    assert!(looks_like_google_meet_meeting_code("abc-defg-hij"));
    assert!(!looks_like_google_meet_meeting_code("abc-defg-hi1"));
    assert!(!looks_like_google_meet_meeting_code("abcd-efg-hij"));
}

#[test]
fn browser_probe_backoff_resets_after_expiry() {
    let mut detector = detector(&["google-meet"]);
    detector.defer_browser_probe_for("Google Chrome", 1_000);
    assert!(!detector.browser_probe_allowed_for("Google Chrome", 1_000));
    assert!(detector.browser_probe_allowed_for("Safari", 1_000));
    assert!(!detector.browser_probe_allowed_for("Google Chrome", 300_999));
    assert!(detector.browser_probe_allowed_for("Google Chrome", 301_000));
    assert!(detector.browser_probe_backoff.is_empty());
}

#[test]
fn browser_probe_global_interval_resets_after_expiry() {
    let mut detector = detector(&["google-meet"]);
    detector.schedule_next_browser_probe(1_000);
    assert!(!detector.browser_probe_due(1_000));
    assert!(!detector.browser_probe_due(15_999));
    assert!(detector.browser_probe_due(16_000));
    assert!(detector.browser_probe_next_allowed_ms.is_none());
}

#[test]
fn running_call_app_must_match_the_binary() {
    let detector = detector(&["google-meet", "FaceTime", "zoom.us"]);
    let running: Vec<String> = vec!["com.apple.FaceTime.FTConversationService".into(), "Zoom.us Helper".into()];
    assert_eq!(detector.matching_call_app(&running), Some(("Zoom".to_string(), "zoom.us".to_string())));
    let idle: Vec<String> = vec!["com.apple.FaceTime.FTConversationService".into()];
    assert_eq!(detector.matching_call_app(&idle), None);
}

#[test]
fn applescript_output_is_classified() {
    match parse_applescript_output(true, " https://a \n\n b\n", "") {
        AppleScriptProbe::Urls(urls) => assert_eq!(urls, vec!["https://a".to_string(), "b".to_string()]),
        _ => panic!("expected urls"),
    }
    assert!(matches!(parse_applescript_output(false, "", "Not Authorized to send Apple events"), AppleScriptProbe::PermissionDenied));
    assert!(matches!(parse_applescript_output(false, "", "execution error (-1743)"), AppleScriptProbe::PermissionDenied));
    assert!(matches!(parse_applescript_output(false, "", "syntax error"), AppleScriptProbe::Error));
}

#[test]
fn browser_script_names_the_app() {
    let script = query_browser_urls("Safari", BrowserKind::Safari);
    assert!(script.starts_with("tell application \"Safari\"\n"));
    assert!(script.ends_with("end tell"));
}

#[test]
fn poll_announces_new_calls_and_reminders() {
    let mut d = detector(&["zoom.us"]);
    assert!(matches!(
        d.poll(true, Some(("Zoom".into(), "zoom.us".into())), 0),
        PollOutcome::Skipped
    ));
    assert!(d.active_call.is_none());
    match d.poll(false, Some(("Zoom".into(), "zoom.us".into())), 1_000) {
        PollOutcome::Announce { payload, show_notification } => {
            assert_eq!(payload.app_name, "Zoom");
            assert_eq!(payload.process_name, "zoom.us");
            assert!(!payload.is_reminder);
            assert!(show_notification);
        }
        _ => panic!("expected an announcement"),
    }
    assert!(matches!(
        d.poll(false, Some(("Zoom".into(), "zoom.us".into())), 2_000),
        PollOutcome::Quiet
    ));
    match d.poll(false, Some(("Zoom".into(), "zoom.us".into())), 1_000 + 10 * 60 * 1000) {
        PollOutcome::Announce { payload, show_notification } => {
            assert!(payload.is_reminder);
            assert!(!show_notification);
        }
        _ => panic!("expected a reminder"),
    }
    match d.poll(false, None, 5_000_000) {
        PollOutcome::Cleared(previous) => assert_eq!(previous.as_deref(), Some("zoom.us")),
        _ => panic!("expected the call to clear"),
    }
    match d.poll(false, None, 5_000_100) {
        PollOutcome::Cleared(previous) => assert_eq!(previous, None),
        _ => panic!("expected nothing to clear"),
    }
}

#[test]
fn poll_interval_is_at_least_one_second() {
    let mut d = detector(&[]);
    d.config.poll_interval_secs = 0;
    assert_eq!(poll_interval_secs(&d.config), 1);
    d.config.poll_interval_secs = 7;
    assert_eq!(poll_interval_secs(&d.config), 7);
    assert_eq!(call_notification_title("Zoom"), "Zoom call detected");
}
