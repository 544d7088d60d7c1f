use minutes_core::platform::Platform;
use minutes_core::call_capture::{
    availability, availability_fresh, availability_from_probe,
    availability_from_probe_with_screen_recording_state, helper_failure_message,
    note_start_failure, parse_macos_major_version, remember_availability, repair_permissions,
    screen_recording_settings_detail_text, CallCaptureAvailability, MacFacts,
    MicrophonePermission, PermissionProbe, ProbeOutcome,
};

#[test]
fn parses_major_version_from_product_version() {
    assert_eq!(parse_macos_major_version("15.0.1"), Some(15));
    assert_eq!(parse_macos_major_version("14.7"), Some(14));
    assert_eq!(parse_macos_major_version(""), None);
    assert_eq!(parse_macos_major_version("not-a-version"), None);
}

#[test]
fn parses_major_version_like_str_parse() {
    assert_eq!(parse_macos_major_version(" 26\n"), Some(26));
    assert_eq!(parse_macos_major_version("+15.1"), Some(15));
    assert_eq!(parse_macos_major_version("99999999999.1"), None);
}

#[test]
fn availability_probe_marks_screen_recording_prompt_as_startable() {
    let mut required = false;
    let availability = availability_from_probe(
        PermissionProbe { screen_recording: false, microphone: MicrophonePermission::Authorized },
        &mut required,
    );
    assert!(matches!(availability, CallCaptureAvailability::PermissionRequired { can_start: true, .. }));
    assert!(availability.can_attempt_capture());
}

#[test]
fn availability_probe_blocks_when_microphone_access_is_denied() {
    let mut required = false;
    let availability = availability_from_probe(
        PermissionProbe { screen_recording: true, microphone: MicrophonePermission::Denied },
        &mut required,
    );
    assert!(matches!(availability, CallCaptureAvailability::PermissionRequired { can_start: false, .. }));
    assert!(!availability.can_attempt_capture());
    assert!(availability.detail().contains("Microphone"));
}

#[test]
fn availability_probe_reports_ready_when_permissions_are_granted() {
    let mut required = false;
    let availability = availability_from_probe(
        PermissionProbe { screen_recording: true, microphone: MicrophonePermission::Authorized },
        &mut required,
    );
    assert!(matches!(availability, CallCaptureAvailability::Available { .. }));
    assert!(availability.capability().can_start);
    assert_eq!(availability.capability().status, "available");
    assert_eq!(availability.capability().backend.as_deref(), Some("screencapturekit-helper"));
}

#[test]
fn availability_probe_blocks_after_screen_recording_was_already_denied() {
    let availability = availability_from_probe_with_screen_recording_state(
        PermissionProbe { screen_recording: false, microphone: MicrophonePermission::Authorized },
        true,
    );
    assert!(matches!(availability, CallCaptureAvailability::PermissionRequired { can_start: false, .. }));
    assert_eq!(availability.detail(), screen_recording_settings_detail_text());
}

#[test]
fn start_failure_marks_screen_recording_as_required_until_granted() {
    let mut required = false;
    assert!(!note_start_failure("some other failure", &mut required));
    assert!(!required);
    assert!(note_start_failure(
        "helper: Screen & System Audio Recording access is required to capture call audio",
        &mut required
    ));
    assert!(required);
    let probe = PermissionProbe { screen_recording: false, microphone: MicrophonePermission::NotDetermined };
    assert!(!availability_from_probe(probe, &mut required).can_attempt_capture());
    let granted = PermissionProbe { screen_recording: true, microphone: MicrophonePermission::NotDetermined };
    assert!(availability_from_probe(granted, &mut required).can_attempt_capture());
    assert!(!required);
}

#[test]
fn fresh_availability_covers_each_outcome() {
    let mut required = false;
    let old = availability_fresh(Platform::MacOs, &MacFacts { major_version: Some(14), helper_present: true }, &ProbeOutcome::Failed(String::new()), &mut required);
    assert_eq!(
        old,
        CallCaptureAvailability::Unsupported {
            detail: "Native call capture requires macOS 15 or newer. This Mac reports macOS 14.".into()
        }
    );
    let unknown = availability_fresh(Platform::MacOs, &MacFacts { major_version: None, helper_present: true }, &ProbeOutcome::Failed(String::new()), &mut required);
    assert!(matches!(unknown, CallCaptureAvailability::Unavailable { .. }));
    let missing = availability_fresh(Platform::MacOs, &MacFacts { major_version: Some(15), helper_present: false }, &ProbeOutcome::Failed(String::new()), &mut required);
    assert!(matches!(missing, CallCaptureAvailability::Unavailable { .. }));
    let failed = availability_fresh(Platform::MacOs, &MacFacts { major_version: Some(15), helper_present: true }, &ProbeOutcome::Failed("boom".into()), &mut required);
    assert!(failed.can_attempt_capture());
    assert!(failed.detail().contains("(boom)"));
    assert_eq!(
        unknown,
        CallCaptureAvailability::Unavailable {
            detail: "Could not determine the macOS version for native call capture.".into()
        }
    );
    assert_eq!(
        missing,
        CallCaptureAvailability::Unavailable {
            detail: "Bundled native call helper is missing from the app bundle.".into()
        }
    );
    assert_eq!(
        failed,
        CallCaptureAvailability::PermissionRequired {
            detail: "Minutes could not verify Screen & System Audio Recording access cleanly (boom). Record Call will still try native capture and may prompt again or require re-enabling Minutes in System Settings > Privacy & Security > Screen & System Audio Recording.".into(),
            can_start: true,
        }
    );
    let mut flag = true;
    availability_fresh(Platform::MacOs, &MacFacts { major_version: None, helper_present: true }, &ProbeOutcome::Failed(String::new()), &mut flag);
    assert!(flag);
}

#[test]
fn cached_availability_expires_after_five_seconds() {
    let mut cache = None;
    assert_eq!(availability(&cache, 1000), None);
    remember_availability(&mut cache, 1000, CallCaptureAvailability::Unavailable { detail: "x".into() });
    assert_eq!(availability(&cache, 5999), Some(CallCaptureAvailability::Unavailable { detail: "x".into() }));
    assert_eq!(availability(&cache, 6000), None);
}

#[test]
fn helper_failure_message_appends_stderr() {
    assert_eq!(helper_failure_message("failed", &vec![]), "failed");
    assert_eq!(helper_failure_message("failed", &vec!["  ".to_string()]), "failed");
    assert_eq!(helper_failure_message("failed", &vec!["a".to_string(), "b".to_string()]), "failed: a b");
}

#[test]
fn repair_permissions_is_macos_only() {
    assert_eq!(
        repair_permissions("com.example"),
        Err("call capture permission repair is only available on macOS".to_string())
    );
}

#[test]
fn fresh_availability_off_macos_is_unsupported() {
    let mut required = true;
    for platform in [Platform::Windows, Platform::Linux, Platform::Other] {
        let a = availability_fresh(
            platform,
            &MacFacts { major_version: Some(15), helper_present: true },
            &ProbeOutcome::Failed(String::new()),
            &mut required,
        );
        assert_eq!(
            a,
            CallCaptureAvailability::Unsupported {
                detail: "Native call capture is currently implemented on macOS only.".into()
            }
        );
        assert!(!a.can_attempt_capture());
    }
    assert!(required);
}
