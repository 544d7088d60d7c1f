use minutes_core::call_capture::{CallCaptureAvailability, CallSourceHealth, StemPaths};
use minutes_core::call_helper::{
    apply_helper_message, capture_poll, parse_helper_message, macos_version_gate, microphone_args, push_stderr_line,
    readiness_outcome, CapturePoll, HelperMessage, HelperStdout, StdoutLine,
};
use minutes_core::pid::CaptureMode;
use minutes_core::recording_flow::{
    capture_failure_notice, choose_start_route, native_capture_ended_notice,
    native_queue_failure_notice, native_stop_failure_notice, queue_failure_notice,
    parse_capture_mode, parse_recording_intent, recording_launch_refusal, stop_route, PreflightFinding, RecordingIntent,
    StartRoute, StopRoute,
};

fn health() -> CallSourceHealth {
    CallSourceHealth {
        backend: "native-call".to_string(),
        mic_live: true,
        call_audio_live: true,
        mic_level: 9,
        call_audio_level: 9,
        last_update: "t0".to_string(),
    }
}

#[test]
fn macos_version_gate_refuses_old_systems() {
    assert_eq!(
        macos_version_gate(Some(14)),
        Err("native call capture requires macOS 15 or newer (found macOS 14)".to_string())
    );
    assert_eq!(macos_version_gate(Some(15)), Ok(()));
    assert_eq!(macos_version_gate(None), Ok(()));
}

#[test]
fn microphone_name_is_passed_trimmed() {
    assert_eq!(
        microphone_args(Some("  MacBook Mic ")),
        vec!["--microphone-name".to_string(), "MacBook Mic".to_string()]
    );
    assert!(microphone_args(Some("   ")).is_empty());
    assert!(microphone_args(None).is_empty());
}

#[test]
fn stderr_keeps_the_last_eight_lines() {
    let mut lines = Vec::new();
    push_stderr_line(&mut lines, "   \n");
    assert!(lines.is_empty());
    for i in 0..10 {
        push_stderr_line(&mut lines, &format!(" line {} \n", i));
    }
    assert_eq!(lines.len(), 8);
    assert_eq!(lines[0], "line 2");
    assert_eq!(lines[7], "line 9");
}

#[test]
fn stdout_readiness_then_events() {
    let mut out = HelperStdout::new();
    assert!(matches!(out.on_line("\n"), StdoutLine::Skip));
    assert!(out.on_end(None, &Vec::new()).is_some());
    match out.on_line(" ready \n") {
        StdoutLine::Ready(l) => assert_eq!(l, "ready"),
        _ => panic!("expected readiness"),
    }
    match out.on_line("{\"event\":\"health\"}\n") {
        StdoutLine::Event(l) => assert_eq!(l, "{\"event\":\"health\"}"),
        _ => panic!("expected an event"),
    }
    assert_eq!(out.on_end(None, &Vec::new()), None);

    let fresh = HelperStdout::new();
    assert_eq!(
        fresh.on_end(None, &vec!["boom".to_string()]),
        Some("native call helper exited before signaling readiness: boom".to_string())
    );
    assert_eq!(
        fresh.on_end(Some("broken pipe"), &Vec::new()),
        Some("failed to read native call helper output: broken pipe".to_string())
    );
}

#[test]
fn helper_events_update_health_and_stems() {
    let mut h = health();
    let mut stems: Option<StemPaths> = None;
    apply_helper_message(
        &mut h,
        &mut stems,
        HelperMessage::Health {
            mic_live: Some(true),
            call_audio_live: None,
            mic_level: Some(0x1_0000_0005),
            call_audio_level: None,
        },
        "t1".to_string(),
    );
    assert!(h.mic_live && !h.call_audio_live);
    assert_eq!(h.mic_level, 5);
    assert_eq!(h.call_audio_level, 0);
    assert_eq!(h.last_update, "t1");

    apply_helper_message(
        &mut h,
        &mut stems,
        HelperMessage::Stems { voice_stem: Some("/a.voice.wav".into()), system_stem: Some("".into()) },
        "t2".to_string(),
    );
    assert!(stems.is_none());
    apply_helper_message(
        &mut h,
        &mut stems,
        HelperMessage::Stems {
            voice_stem: Some("/a.voice.wav".into()),
            system_stem: Some("/a.system.wav".into()),
        },
        "t3".to_string(),
    );
    let s = stems.clone().unwrap();
    assert_eq!(s.voice, "/a.voice.wav");
    assert_eq!(s.system, "/a.system.wav");
    assert_eq!(h.last_update, "t1");
    apply_helper_message(&mut h, &mut stems, HelperMessage::Other, "t4".to_string());
    assert_eq!(h.last_update, "t1");
}

#[test]
fn readiness_answers() {
    let mut settings_required = false;
    assert_eq!(
        readiness_outcome(Some(Ok("ready".into())), &Vec::new(), &mut settings_required),
        Ok(())
    );
    assert_eq!(
        readiness_outcome(Some(Ok("hello".into())), &Vec::new(), &mut settings_required),
        Err("native call helper returned unexpected readiness output: hello".to_string())
    );
    assert!(!settings_required);
    let denied = "capture failed: Screen & System Audio Recording access is required to capture call audio";
    assert_eq!(
        readiness_outcome(Some(Err(denied.into())), &Vec::new(), &mut settings_required),
        Err(denied.to_string())
    );
    assert!(settings_required);
    let mut again = false;
    assert_eq!(
        readiness_outcome(None, &vec!["no stream".to_string()], &mut again),
        Err(
            "native call helper timed out waiting for ScreenCaptureKit readiness: no stream"
                .to_string()
        )
    );
    assert!(!again);
}

#[test]
fn capture_poll_decisions() {
    assert_eq!(capture_poll(true, Some(false)), CapturePoll::Stop);
    assert_eq!(capture_poll(false, Some(true)), CapturePoll::Stop);
    assert_eq!(capture_poll(false, Some(false)), CapturePoll::Failed);
    assert_eq!(capture_poll(false, None), CapturePoll::Continue);
}

#[test]
fn start_routes() {
    let ok = |reason: Option<&str>, call: bool| {
        Ok(PreflightFinding { blocking_reason: reason.map(|s| s.to_string()), intent_is_call: call })
    };
    let available = CallCaptureAvailability::Available { backend: "native-call".into() };
    let missing = CallCaptureAvailability::Unavailable { detail: "helper missing".into() };

    match choose_start_route(Err("no mic".into()), false, None) {
        StartRoute::Blocked { title, message } => {
            assert_eq!(title, "Recording blocked");
            assert_eq!(message, "no mic");
        }
        _ => panic!("expected blocked"),
    }
    assert!(matches!(
        choose_start_route(ok(Some("mic busy"), true), true, Some(&available)),
        StartRoute::NativeCall
    ));
    match choose_start_route(ok(Some("mic busy"), true), false, None) {
        StartRoute::Blocked { message, .. } => assert_eq!(message, "mic busy"),
        _ => panic!("expected blocked"),
    }
    match choose_start_route(ok(None, true), true, Some(&missing)) {
        StartRoute::Blocked { title, message } => {
            assert_eq!(title, "Call capture unavailable");
            assert_eq!(message, "helper missing");
        }
        _ => panic!("expected blocked"),
    }
    assert!(matches!(
        choose_start_route(ok(None, false), false, None),
        StartRoute::LocalCapture
    ));
    assert!(matches!(
        choose_start_route(ok(None, true), true, None),
        StartRoute::LocalCapture
    ));
}

#[test]
fn preserved_capture_notices() {
    let n = queue_failure_notice(CaptureMode::QuickThought, "/x.wav");
    assert_eq!(n.kind, "preserved-capture");
    assert_eq!(n.title, "Raw capture preserved");
    assert_eq!(n.path, "/x.wav");
    assert_eq!(
        n.detail,
        "Failed to queue background processing. Raw quick thought capture preserved."
    );
    let n = capture_failure_notice(CaptureMode::Meeting, "/m.wav");
    assert_eq!(n.title, "Partial capture preserved");
    assert_eq!(
        n.detail,
        "Recording failed before processing, but the captured meeting audio was preserved."
    );
    assert_eq!(
        capture_failure_notice(CaptureMode::Dictation, "/d.wav").detail,
        "Dictation failed, but the audio was preserved."
    );
    assert_eq!(native_capture_ended_notice("/c.mov").title, "Native call capture failed");
    assert_eq!(
        native_stop_failure_notice("/c.mov", "kill failed").detail,
        "Stopping native call capture failed: kill failed"
    );
    assert_eq!(
        native_queue_failure_notice("/c.mov", "disk full").detail,
        "Failed to queue native call capture for processing: disk full"
    );
}

#[test]
fn capture_mode_defaults_to_meeting_and_rejects_unknown_names() {
    assert_eq!(parse_capture_mode(None), Ok(CaptureMode::Meeting));
    assert_eq!(parse_capture_mode(Some("meeting")), Ok(CaptureMode::Meeting));
    assert_eq!(parse_capture_mode(Some("quick-thought")), Ok(CaptureMode::QuickThought));
    assert_eq!(
        parse_capture_mode(Some("dictation")),
        Err("Unsupported recording mode: dictation. Use 'meeting' or 'quick-thought'.".to_string())
    );
}

#[test]
fn recording_intent_defaults_to_auto_and_rejects_unknown_names() {
    assert_eq!(parse_recording_intent(None), Ok(None));
    assert_eq!(parse_recording_intent(Some("auto")), Ok(None));
    assert_eq!(parse_recording_intent(Some("memo")), Ok(Some(RecordingIntent::Memo)));
    assert_eq!(parse_recording_intent(Some("room")), Ok(Some(RecordingIntent::Room)));
    assert_eq!(parse_recording_intent(Some("call")), Ok(Some(RecordingIntent::Call)));
    assert_eq!(
        parse_recording_intent(Some("podcast")),
        Err("Unsupported recording intent: podcast. Use auto, memo, room, or call.".to_string())
    );
}

#[test]
fn stop_route_depends_on_who_records() {
    assert_eq!(stop_route(None, 10, false), StopRoute::NotRecording);
    assert_eq!(stop_route(Some(10), 10, true), StopRoute::OwnSession);
    assert_eq!(stop_route(Some(42), 10, true), StopRoute::SentinelOnly);
    assert_eq!(stop_route(Some(42), 10, false), StopRoute::SentinelAndSignal(42));
}

#[test]
fn recording_launch_refusal_reasons() {
    assert_eq!(recording_launch_refusal(true, false, true), Some("Already recording".to_string()));
    assert_eq!(recording_launch_refusal(false, true, false), Some("Already recording".to_string()));
    assert_eq!(
        recording_launch_refusal(false, false, true),
        Some("Live transcript in progress — stop it first".to_string())
    );
    assert_eq!(recording_launch_refusal(false, false, false), None);
}

#[test]
fn helper_lines_parse_into_events() {
    match parse_helper_message(r#"{"event":"health","mic_live":true,"call_audio_live":false,"mic_level":42}"#) {
        HelperMessage::Health { mic_live, call_audio_live, mic_level, call_audio_level } => {
            assert_eq!(mic_live, Some(true));
            assert_eq!(call_audio_live, Some(false));
            assert_eq!(mic_level, Some(42));
            assert_eq!(call_audio_level, None);
        }
        other => panic!("unexpected {:?}", other),
    }
    match parse_helper_message(r#"{"event":"stems","voice_stem":"/a/voice.wav","system_stem":"/a/system.wav"}"#) {
        HelperMessage::Stems { voice_stem, system_stem } => {
            assert_eq!(voice_stem.as_deref(), Some("/a/voice.wav"));
            assert_eq!(system_stem.as_deref(), Some("/a/system.wav"));
        }
        other => panic!("unexpected {:?}", other),
    }
    assert!(matches!(parse_helper_message(r#"{"event":"started"}"#), HelperMessage::Other));
    assert!(matches!(parse_helper_message("not json"), HelperMessage::Other));
    assert!(matches!(parse_helper_message(r#"{"event":"health","mic_level":"high"}"#), HelperMessage::Health { mic_level: None, .. }));
}
