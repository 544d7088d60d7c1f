use minutes_core::app_state::{DictationHotkeyLifecycle, DictationHotkeyRuntime};
use minutes_core::hotkey::HotkeyMonitorStatus;
use minutes_core::hotkey_control::{
    apply_dictation_monitor_status, begin_dictation_hotkey, dictation_hotkey_press,
    dictation_hotkey_release, dictation_monitor_failed_to_start, keeps_dictation_monitor,
    recording_hotkey_press, recording_hotkey_release, should_start_dictation_hold,
    should_start_recording_hold, DictationRelease, RecordingRelease,
};
use minutes_core::shortcuts::{HotkeyCaptureStyle, HotkeyRuntime};

#[test]
fn recording_hotkey_hold_and_tap() {
    let mut rt = HotkeyRuntime::default();
    let g = recording_hotkey_press(&mut rt, 1_000).unwrap();
    assert_eq!(g, 1);
    assert_eq!(recording_hotkey_press(&mut rt, 1_050), None);
    assert!(should_start_recording_hold(&rt, g, false, false, false));
    assert!(!should_start_recording_hold(&rt, g, true, false, false));
    assert!(!should_start_recording_hold(&rt, g + 1, false, false, false));

    // a short tap while idle starts a locked capture
    assert_eq!(recording_hotkey_release(&mut rt, 1_100, false), RecordingRelease::StartLocked);
    assert!(!rt.key_down);
    assert!(!should_start_recording_hold(&rt, g, false, false, false));

    // a short tap while recording stops it
    recording_hotkey_press(&mut rt, 2_000);
    assert_eq!(recording_hotkey_release(&mut rt, 2_100, true), RecordingRelease::StopRecording);

    // a long press without a capture does nothing
    recording_hotkey_press(&mut rt, 3_000);
    assert_eq!(recording_hotkey_release(&mut rt, 3_500, false), RecordingRelease::Ignore);
}

#[test]
fn recording_hotkey_release_stops_its_capture() {
    let mut rt = HotkeyRuntime::default();
    recording_hotkey_press(&mut rt, 0);
    rt.active_capture = Some(HotkeyCaptureStyle::Hold);
    rt.recording_started_at = Some(300);
    assert_eq!(
        recording_hotkey_release(&mut rt, 500, true),
        RecordingRelease::StopCapture { discard: true }
    );
    assert_eq!(rt.active_capture, None);
    assert_eq!(rt.recording_started_at, None);

    recording_hotkey_press(&mut rt, 1_000);
    rt.active_capture = Some(HotkeyCaptureStyle::Hold);
    rt.recording_started_at = Some(1_300);
    assert_eq!(
        recording_hotkey_release(&mut rt, 1_800, true),
        RecordingRelease::StopCapture { discard: false }
    );
}

#[test]
fn a_second_press_invalidates_the_first_hold() {
    let mut rt = HotkeyRuntime::default();
    let g1 = recording_hotkey_press(&mut rt, 0).unwrap();
    recording_hotkey_release(&mut rt, 50, false);
    let g2 = recording_hotkey_press(&mut rt, 100).unwrap();
    assert_ne!(g1, g2);
    assert!(!should_start_recording_hold(&rt, g1, false, false, false));
    assert!(should_start_recording_hold(&rt, g2, false, false, false));

    let mut wrapping = HotkeyRuntime::default();
    wrapping.hold_generation = u64::MAX;
    assert_eq!(recording_hotkey_press(&mut wrapping, 0), Some(0));
}

#[test]
fn dictation_hotkey_press_and_release() {
    let mut rt = DictationHotkeyRuntime::default();
    let generation = begin_dictation_hotkey(&mut rt, 63);
    assert_eq!(generation, 1);
    assert_eq!(rt.keycode, 63);
    assert_eq!(rt.lifecycle, DictationHotkeyLifecycle::Starting);

    let g = dictation_hotkey_press(&mut rt, 10).unwrap();
    assert!(should_start_dictation_hold(&rt, g));
    assert_eq!(dictation_hotkey_press(&mut rt, 20), None);
    assert_eq!(
        dictation_hotkey_release(&mut rt, 100, false, false),
        DictationRelease::StartLocked
    );
    dictation_hotkey_press(&mut rt, 200);
    assert_eq!(
        dictation_hotkey_release(&mut rt, 250, true, false),
        DictationRelease::StopLocked
    );
    dictation_hotkey_press(&mut rt, 300);
    assert_eq!(
        dictation_hotkey_release(&mut rt, 350, false, true),
        DictationRelease::SkipPidActive
    );
    dictation_hotkey_press(&mut rt, 400);
    assert_eq!(
        dictation_hotkey_release(&mut rt, 900, false, false),
        DictationRelease::SkipNotShortTap
    );
    dictation_hotkey_press(&mut rt, 1_000);
    rt.active_capture = Some(HotkeyCaptureStyle::Hold);
    assert_eq!(
        dictation_hotkey_release(&mut rt, 2_000, false, false),
        DictationRelease::StopHold
    );
    assert!(!rt.key_down);
}

#[test]
fn monitor_reports_apply_only_to_the_current_generation() {
    let mut rt = DictationHotkeyRuntime::default();
    let first = begin_dictation_hotkey(&mut rt, 57);
    let second = begin_dictation_hotkey(&mut rt, 63);
    let stale = apply_dictation_monitor_status(&mut rt, first, 57, HotkeyMonitorStatus::Active);
    assert!(!stale.emit_status);
    assert_eq!(rt.lifecycle, DictationHotkeyLifecycle::Starting);
    assert_eq!(rt.keycode, 63);

    let active = apply_dictation_monitor_status(&mut rt, second, 63, HotkeyMonitorStatus::Active);
    assert!(active.emit_status && !active.prompt_accessibility && !active.drop_monitor);
    assert_eq!(rt.lifecycle, DictationHotkeyLifecycle::Active);
    assert!(keeps_dictation_monitor(&rt, second));

    let failed = apply_dictation_monitor_status(
        &mut rt,
        second,
        63,
        HotkeyMonitorStatus::Failed("no permission".to_string()),
    );
    assert!(failed.prompt_accessibility && failed.drop_monitor);
    assert_eq!(rt.last_error.as_deref(), Some("no permission"));
    assert!(!keeps_dictation_monitor(&rt, second));

    rt.key_down = true;
    let stopped = apply_dictation_monitor_status(&mut rt, second, 63, HotkeyMonitorStatus::Stopped);
    assert!(stopped.drop_monitor && !stopped.prompt_accessibility);
    assert_eq!(rt.lifecycle, DictationHotkeyLifecycle::Disabled);
    assert!(!rt.key_down);
    assert_eq!(rt.last_error, None);
}

#[test]
fn monitor_start_failure_marks_current_generation_failed() {
    let mut rt = DictationHotkeyRuntime::default();
    let g = begin_dictation_hotkey(&mut rt, 57);
    dictation_monitor_failed_to_start(&mut rt, g + 5, "late".to_string());
    assert_eq!(rt.lifecycle, DictationHotkeyLifecycle::Starting);
    dictation_monitor_failed_to_start(&mut rt, g, "tap failed".to_string());
    assert_eq!(rt.lifecycle, DictationHotkeyLifecycle::Failed);
    assert_eq!(rt.last_error.as_deref(), Some("tap failed"));
}
