use std::collections::HashSet;

use minutes_core::app_state::{
    blocking_reason_for_start, call_capture_status, clear_dictation_hotkey_capture_state,
    current_dictation_hotkey_status, current_hotkey_settings,
    desktop_capabilities_with_updates_enabled, dictation_hotkey_status_for_other_platform,
    display_path, ensure_no_palette_shortcut_collision, model_status, palette_open_finished,
    palette_window_closed, set_latest_output, set_processing_stage, stage_label,
    stop_dictation_hotkey, take_deferred_update, toggle_palette, try_acquire_live,
    updates_enabled_for_identifier, AppState, DictationHotkeyLifecycle, DictationHotkeyRuntime,
    OutputNotice, PaletteLifecycle, PaletteTransition, PendingUpdate,
};
use minutes_core::call_capture::CallCaptureAvailability;
use minutes_core::capture::PipelineStage;
use minutes_core::meetings::{
    context_switch_prompt, extract_current_meeting_path, is_hidden_or_system_file,
    is_shell_command, meeting_has_prep, meeting_title_from_path, parse_optional_string_setting,
    parse_sections, recovery_title, terminal_title_for_mode,
};
use minutes_core::pid::CaptureMode;
use minutes_core::platform::{
    current_platform, folder_reveal_label, supports_calendar_integration, supports_call_detection,
    supports_dictation_hotkey, supports_tray_artifact_copy, Platform,
};
use minutes_core::shortcuts::{
    default_dictation_shortcut, default_hotkey_shortcut, default_palette_shortcut,
    dictation_choice_table, hotkey_choice_table, humanize_shortcut, is_short_hotkey_tap,
    palette_first_run_notice,
    palette_choice_table, palette_shortcut_choices, reset_hotkey_capture_state,
    shortcut_collision_error, should_discard_hotkey_capture, validate_dictation_shortcut,
    validate_hotkey_shortcut, validate_palette_shortcut, HotkeyCaptureStyle, HotkeyRuntime,
};

fn state() -> AppState {
    AppState {
        recording: false,
        starting: false,
        stop_flag: false,
        processing: false,
        processing_stage: None,
        latest_output: None,
        call_capture_health: None,
        completion_notifications_enabled: true,
        screen_share_hidden: true,
        global_hotkey_enabled: false,
        global_hotkey_shortcut: default_hotkey_shortcut().to_string(),
        hotkey_runtime: HotkeyRuntime::default(),
        discard_short_hotkey_capture: false,
        dictation_active: false,
        dictation_stop_flag: false,
        dictation_shortcut_enabled: false,
        dictation_shortcut: default_dictation_shortcut().to_string(),
        live_transcript_active: false,
        live_transcript_stop_flag: false,
        live_shortcut_enabled: false,
        live_shortcut: "CmdOrCtrl+Shift+L".to_string(),
        pending_update: None,
        palette_shortcut_enabled: true,
        palette_shortcut: default_palette_shortcut().to_string(),
        palette_lifecycle: PaletteLifecycle::default(),
        palette_reopen_pending: false,
    }
}

#[test]
fn parse_optional_string_setting_preserves_auto_detect_state() {
    assert_eq!(parse_optional_string_setting(""), None);
    assert_eq!(parse_optional_string_setting("   "), None);
    assert_eq!(parse_optional_string_setting("en"), Some("en".to_string()));
    assert_eq!(parse_optional_string_setting(" es "), Some("es".to_string()));
}

#[test]
fn stage_label_maps_pipeline_stage_to_user_facing_copy() {
    assert_eq!(stage_label(PipelineStage::Transcribing, CaptureMode::Meeting), "Transcribing meeting");
    assert_eq!(stage_label(PipelineStage::Diarizing, CaptureMode::QuickThought), "Separating speakers");
    assert_eq!(stage_label(PipelineStage::Saving, CaptureMode::Dictation), "Saving dictation");
    assert_eq!(stage_label(PipelineStage::Diarizing, CaptureMode::LiveTranscript), "Processing live transcript");
}

#[test]
fn set_latest_output_replaces_previous_notice() {
    let mut s = state();
    set_latest_output(
        &mut s,
        Some(OutputNotice {
            kind: "saved".into(),
            title: "Demo".into(),
            path: "/tmp/demo.md".into(),
            detail: "Saved".into(),
        }),
    );
    let current = s.latest_output.clone().unwrap();
    assert_eq!(current.title, "Demo");
    assert_eq!(current.path, "/tmp/demo.md");
    set_processing_stage(&mut s, Some("Saving meeting"));
    assert_eq!(s.processing_stage.as_deref(), Some("Saving meeting"));
    set_processing_stage(&mut s, None);
    assert_eq!(s.processing_stage, None);
}

#[test]
fn desktop_capabilities_align_with_helper_flags() {
    for platform in [Platform::MacOs, Platform::Windows, Platform::Linux, Platform::Other] {
        let availability = CallCaptureAvailability::Unsupported { detail: "n/a".into() };
        let caps = desktop_capabilities_with_updates_enabled(platform, false, &availability);
        assert_eq!(caps.platform, current_platform(platform));
        assert_eq!(caps.folder_reveal_label, folder_reveal_label(platform));
        assert_eq!(caps.supports_calendar_integration, supports_calendar_integration(platform));
        assert_eq!(caps.supports_call_detection, supports_call_detection(platform));
        assert_eq!(caps.supports_tray_artifact_copy, supports_tray_artifact_copy(platform));
        assert_eq!(caps.supports_dictation_hotkey, supports_dictation_hotkey(platform));
        assert_eq!(caps.native_call_capture, availability.capability());
        assert!(!caps.updates_enabled);
    }
    assert_eq!(current_platform(Platform::MacOs), "macos");
    assert_eq!(folder_reveal_label(Platform::Windows), "Show in Explorer");
    assert_eq!(folder_reveal_label(Platform::Linux), "Show in Folder");
}

#[test]
fn blocking_reason_is_bypassed_when_native_call_capture_can_start() {
    let reason = Some("needs a call route");
    assert_eq!(blocking_reason_for_start(reason, true, true, true), None);
    assert_eq!(blocking_reason_for_start(reason, true, true, false), Some("needs a call route".into()));
    assert_eq!(blocking_reason_for_start(reason, true, false, true), Some("needs a call route".into()));
}

#[test]
fn blocking_reason_still_applies_for_non_call_intents() {
    assert_eq!(blocking_reason_for_start(Some("room blocked"), false, true, true), Some("room blocked".into()));
    assert_eq!(blocking_reason_for_start(None, true, true, true), None);
}

#[test]
fn model_status_reports_missing_model() {
    let status = model_status("small", "/tmp/models/ggml-small.bin", false);
    assert_eq!(status.label, "Speech model");
    assert_eq!(status.state, "attention");
    assert_eq!(status.detail, "small is not installed yet. Download it before recording.");
    let ready = model_status("small", "/m/ggml-small.bin", true);
    assert_eq!(ready.detail, "small is installed at /m/ggml-small.bin.");
}

#[test]
fn display_path_rewrites_home_prefix() {
    let displayed = display_path("/home/u/meetings/demo.md", Some("/home/u"));
    assert!(displayed.starts_with("~/"));
    assert_eq!(displayed, "~/meetings/demo.md");
    assert_eq!(display_path("/other/x", Some("/home/u")), "/other/x");
    assert_eq!(display_path("/home/u/x", None), "/home/u/x");
}

#[test]
fn parse_sections_preserves_top_level_order() {
    let body = "## Summary\n\nHello\n\n## Notes\n\n- One\n\n## Transcript\n\n[0:00] Hi\n";
    let sections = parse_sections(body);
    assert_eq!(sections.len(), 3);
    assert_eq!(sections[0].heading, "Summary");
    assert_eq!(sections[1].heading, "Notes");
    assert_eq!(sections[2].heading, "Transcript");
    assert!(sections[2].content.contains("[0:00] Hi"));
    assert_eq!(sections[0].content, "Hello");
}

#[test]
fn parse_sections_drops_text_before_first_heading() {
    let sections = parse_sections("intro\n##  Padded \nbody");
    assert_eq!(sections.len(), 1);
    assert_eq!(sections[0].heading, "Padded");
    assert_eq!(sections[0].content, "body");
    assert!(parse_sections("no headings").is_empty());
}

#[test]
fn validate_hotkey_shortcut_accepts_known_values() {
    assert_eq!(validate_hotkey_shortcut("CmdOrCtrl+Shift+M").unwrap(), "CmdOrCtrl+Shift+M");
}

#[test]
fn validate_hotkey_shortcut_rejects_unknown_values() {
    assert!(validate_hotkey_shortcut("CmdOrCtrl+Shift+P").is_err());
    assert_eq!(
        validate_hotkey_shortcut("X").unwrap_err(),
        "Unsupported shortcut: X. Choose one of: Cmd/Ctrl + Shift + M, Cmd/Ctrl + Shift + J, Cmd/Ctrl + Shift + T"
    );
}

#[test]
fn validate_palette_shortcut_accepts_default_choices() {
    assert_eq!(validate_palette_shortcut("CmdOrCtrl+Shift+K").unwrap(), "CmdOrCtrl+Shift+K");
    assert_eq!(validate_palette_shortcut("CmdOrCtrl+Shift+O").unwrap(), "CmdOrCtrl+Shift+O");
    assert_eq!(validate_palette_shortcut("CmdOrCtrl+Shift+U").unwrap(), "CmdOrCtrl+Shift+U");
}

#[test]
fn validate_palette_shortcut_rejects_unknown() {
    assert!(validate_palette_shortcut("CmdOrCtrl+Shift+Z").is_err());
    assert!(validate_palette_shortcut("nonsense").is_err());
    assert!(validate_palette_shortcut("CmdOrCtrl+Shift+P").is_err());
    assert!(validate_palette_shortcut("CmdOrCtrl+Alt+Space").is_err());
}

#[test]
fn validate_dictation_shortcut_accepts_its_choices() {
    assert_eq!(validate_dictation_shortcut("CmdOrCtrl+Alt+Space").unwrap(), "CmdOrCtrl+Alt+Space");
    assert!(validate_dictation_shortcut("CmdOrCtrl+Shift+K").is_err());
}

#[test]
fn palette_shortcut_choices_do_not_collide_with_other_minutes_choices() {
    let palette: HashSet<&str> = palette_choice_table().iter().map(|(v, _)| *v).collect();
    let hotkey: HashSet<&str> = hotkey_choice_table().iter().map(|(v, _)| *v).collect();
    let dictation: HashSet<&str> = dictation_choice_table().iter().map(|(v, _)| *v).collect();
    for chord in &palette {
        assert!(!hotkey.contains(chord), "{} appears in both palette and hotkey choices", chord);
        assert!(!dictation.contains(chord), "{} appears in both palette and dictation choices", chord);
    }
    assert_eq!(palette_shortcut_choices()[0].label, "Cmd/Ctrl + Shift + K");
}

#[test]
fn shortcut_collision_error_ignores_disabled_shortcuts() {
    let in_use = [
        ("dictation", false, Some("CmdOrCtrl+Shift+K".to_string())),
        ("live transcript", true, Some("CmdOrCtrl+Shift+O".to_string())),
    ];
    assert!(shortcut_collision_error("CmdOrCtrl+Shift+K", &in_use).is_ok());
    assert!(shortcut_collision_error("CmdOrCtrl+Shift+O", &in_use).unwrap_err().contains("live transcript"));
}

#[test]
fn palette_collision_checks_enabled_features() {
    let mut s = state();
    s.live_shortcut_enabled = true;
    s.live_shortcut = "CmdOrCtrl+Shift+O".into();
    assert_eq!(
        ensure_no_palette_shortcut_collision(&s, "CmdOrCtrl+Shift+O").unwrap_err(),
        "CmdOrCtrl+Shift+O is already used by the live transcript shortcut"
    );
    assert!(ensure_no_palette_shortcut_collision(&s, "CmdOrCtrl+Shift+K").is_ok());
}

#[test]
fn humanize_shortcut_renders_modifiers_as_glyphs() {
    assert_eq!(humanize_shortcut("CmdOrCtrl+Shift+K"), "⌘⇧K");
    assert_eq!(humanize_shortcut("CmdOrCtrl+Alt+Space"), "⌘⌥Space");
    assert_eq!(humanize_shortcut("CmdOrCtrl+Shift+O"), "⌘⇧O");
    assert_eq!(humanize_shortcut("CmdOrCtrl+Shift+Backspace"), "⌘⇧Backspace");
    assert_eq!(humanize_shortcut("Control+Option+X"), "⌃⌥X");
}

#[test]
fn short_hotkey_capture_is_discarded() {
    assert!(should_discard_hotkey_capture(Some(10_000 - 200), 10_000));
}

#[test]
fn long_hotkey_capture_is_kept() {
    assert!(!should_discard_hotkey_capture(Some(10_000 - 450), 10_000));
    assert!(!should_discard_hotkey_capture(None, 10_000));
}

#[test]
fn short_hotkey_tap_detection_matches_threshold() {
    assert!(is_short_hotkey_tap(Some(10_000 - 200), 10_000));
    assert!(!is_short_hotkey_tap(Some(10_000 - 350), 10_000));
    assert!(is_short_hotkey_tap(Some(20_000), 10_000));
}

#[test]
fn reset_hotkey_capture_state_clears_runtime_and_discard_flag() {
    let mut runtime = HotkeyRuntime {
        key_down: true,
        key_down_started_at: Some(5),
        active_capture: Some(HotkeyCaptureStyle::Locked),
        recording_started_at: Some(6),
        hold_generation: 9,
    };
    let mut discard = true;
    reset_hotkey_capture_state(&mut runtime, &mut discard);
    assert!(!runtime.key_down);
    assert!(runtime.key_down_started_at.is_none());
    assert!(runtime.active_capture.is_none());
    assert!(runtime.recording_started_at.is_none());
    assert_eq!(runtime.hold_generation, 9);
    assert!(!discard);
}

#[test]
fn clear_dictation_hotkey_capture_state_resets_press_tracking() {
    let mut runtime = DictationHotkeyRuntime {
        generation: 2,
        keycode: 57,
        lifecycle: DictationHotkeyLifecycle::Active,
        last_error: None,
        key_down: true,
        key_down_started_at: Some(1),
        active_capture: Some(HotkeyCaptureStyle::Hold),
        hold_generation: 4,
    };
    clear_dictation_hotkey_capture_state(&mut runtime);
    assert!(!runtime.key_down);
    assert!(runtime.key_down_started_at.is_none());
    assert!(runtime.active_capture.is_none());
    assert_eq!(runtime.hold_generation, 4);
}

#[test]
fn dictation_hotkey_status_reflects_lifecycle() {
    let mut runtime = DictationHotkeyRuntime::default();
    runtime.lifecycle = DictationHotkeyLifecycle::Failed;
    runtime.last_error = Some("no permission".into());
    let status = current_dictation_hotkey_status(&runtime);
    assert_eq!(status.state, "failed");
    assert_eq!(status.message, "no permission");
    assert!(!status.enabled);
    stop_dictation_hotkey(&mut runtime);
    assert_eq!(runtime.generation, 1);
    assert_eq!(runtime.lifecycle, DictationHotkeyLifecycle::Disabled);
    assert!(runtime.last_error.is_none());
    let other = dictation_hotkey_status_for_other_platform();
    assert_eq!(other.state, "unsupported");
    assert_eq!(other.keycode, 57);
}

#[test]
fn palette_lifecycle_queues_reopen_while_closing() {
    let mut s = state();
    assert_eq!(toggle_palette(&mut s), Some(PaletteTransition::Open));
    assert_eq!(s.palette_lifecycle, PaletteLifecycle::Opening);
    assert_eq!(toggle_palette(&mut s), None);
    palette_open_finished(&mut s, true);
    assert_eq!(toggle_palette(&mut s), Some(PaletteTransition::Close));
    assert_eq!(s.palette_lifecycle, PaletteLifecycle::Closing);
    assert_eq!(toggle_palette(&mut s), None);
    assert!(s.palette_reopen_pending);
    assert!(palette_window_closed(&mut s));
    assert_eq!(s.palette_lifecycle, PaletteLifecycle::Opening);
    assert!(!s.palette_reopen_pending);
    palette_open_finished(&mut s, false);
    assert_eq!(s.palette_lifecycle, PaletteLifecycle::Closed);
    assert!(!palette_window_closed(&mut s));
}

#[test]
fn live_transcript_claim_is_refused_while_busy() {
    let mut s = state();
    s.dictation_active = true;
    assert_eq!(try_acquire_live(&mut s, false).unwrap_err(), "Dictation in progress \u{2014} stop dictation first");
    assert!(!s.live_transcript_active);
    s.dictation_active = false;
    assert!(try_acquire_live(&mut s, true).unwrap_err().starts_with("Recording already in progress"));
    assert!(try_acquire_live(&mut s, false).is_ok());
    assert!(s.live_transcript_active);
    assert_eq!(try_acquire_live(&mut s, false).unwrap_err(), "Live transcript already active");
    assert!(s.live_transcript_active);
}

#[test]
fn deferred_update_waits_for_idle() {
    let mut s = state();
    s.pending_update = Some(PendingUpdate { version: "1.2".into(), body: "notes".into() });
    s.recording = true;
    assert!(take_deferred_update(&mut s).is_none());
    s.recording = false;
    assert_eq!(take_deferred_update(&mut s).unwrap().version, "1.2");
    assert!(s.pending_update.is_none());
}

#[test]
fn hotkey_settings_show_state_and_choices() {
    let mut s = state();
    s.global_hotkey_enabled = true;
    let settings = current_hotkey_settings(&s);
    assert!(settings.enabled);
    assert_eq!(settings.shortcut, "CmdOrCtrl+Shift+M");
    assert_eq!(settings.choices.len(), 3);
    assert!(updates_enabled_for_identifier("com.useminutes.desktop"));
    assert!(!updates_enabled_for_identifier("com.useminutes.desktop.dev"));
}

#[test]
fn call_capture_readiness_line() {
    let item = call_capture_status(&CallCaptureAvailability::Available { backend: "helper".into() });
    assert_eq!(item.state, "ready");
    assert!(item.detail.starts_with("Native call capture is available via helper."));
    let blocked = call_capture_status(&CallCaptureAvailability::Unsupported { detail: "nope".into() });
    assert_eq!(blocked.state, "unsupported");
    assert_eq!(blocked.detail, "nope");
}

#[test]
fn extracts_markdown_link_path() {
    assert_eq!(
        extract_current_meeting_path("[Team Sync](/Users/x/meetings/2026-04-07-team-sync.md)").as_deref(),
        Some("/Users/x/meetings/2026-04-07-team-sync.md")
    );
}

#[test]
fn extracts_path_prefix_form() {
    assert_eq!(
        extract_current_meeting_path("path: /Users/x/meetings/call.md").as_deref(),
        Some("/Users/x/meetings/call.md")
    );
    assert_eq!(
        extract_current_meeting_path(r#"path: "/Users/x/meetings/call.md""#).as_deref(),
        Some("/Users/x/meetings/call.md")
    );
}

#[test]
fn extracts_bare_absolute_path() {
    assert_eq!(
        extract_current_meeting_path("/Users/x/meetings/call.md").as_deref(),
        Some("/Users/x/meetings/call.md")
    );
}

#[test]
fn rejects_non_md_and_relative_paths() {
    assert_eq!(extract_current_meeting_path("relative/path.md"), None);
    assert_eq!(extract_current_meeting_path("/abs/path.txt"), None);
    assert_eq!(extract_current_meeting_path("just a sentence"), None);
}

#[test]
fn meeting_titles_come_from_file_stems() {
    assert_eq!(meeting_title_from_path("/m/2026-04-07-team-sync.md"), "2026 04 07 team sync");
    assert_eq!(meeting_title_from_path("/"), "Meeting Discussion");
    assert_eq!(recovery_title("/x/--.wav", "Recovered"), "Recovered");
    assert_eq!(recovery_title("/x/idea-one.m4a", "Recovered"), "idea one");
    assert!(is_hidden_or_system_file("/x/.DS_Store"));
    assert!(!is_hidden_or_system_file("/x/notes.md"));
}

#[test]
fn terminal_titles_and_prompts() {
    assert_eq!(terminal_title_for_mode("assistant", None).unwrap(), "Minutes Assistant");
    assert_eq!(terminal_title_for_mode("meeting", Some("/m/q2-plan.md")).unwrap(), "Discussing: q2 plan");
    assert_eq!(terminal_title_for_mode("meeting", None).unwrap_err(), "meeting_path required for meeting mode");
    assert_eq!(
        terminal_title_for_mode("chat", None).unwrap_err(),
        "Unknown mode: chat. Use 'meeting' or 'assistant'."
    );
    assert!(is_shell_command("/bin/zsh"));
    assert!(is_shell_command("fish"));
    assert!(!is_shell_command("codex"));
    assert_eq!(
        context_switch_prompt("bash", "assistant", "x", "AGENTS.md"),
        "cat <<'__MINUTES__'\nMinutes cleared the active meeting focus. Resume general assistant mode and reread AGENTS.md if needed.\n__MINUTES__\n"
    );
    assert_eq!(
        context_switch_prompt("codex", "meeting", "Q2", "AGENTS.md"),
        "Minutes changed focus to Q2. Read CURRENT_MEETING.md and AGENTS.md, then help with that meeting.\n"
    );
}

#[test]
fn prep_matches_first_names() {
    let attendees = vec!["Alex Smith".to_string(), "Jordan".to_string()];
    assert!(meeting_has_prep(&attendees, &vec!["alex".to_string()]));
    assert!(meeting_has_prep(&attendees, &vec!["jordan".to_string()]));
    assert!(!meeting_has_prep(&attendees, &vec!["smith".to_string()]));
}

#[test]
fn palette_first_run_notice_shows_once_while_enabled() {
    assert_eq!(
        palette_first_run_notice(false, true, "CmdOrCtrl+Shift+K"),
        Some("Press ⌘⇧K to open the new command palette. Disable in Settings if it conflicts with your other apps.".to_string())
    );
    assert_eq!(palette_first_run_notice(true, true, "CmdOrCtrl+Shift+K"), None);
    assert_eq!(palette_first_run_notice(false, false, "CmdOrCtrl+Shift+K"), None);
}

#[test]
fn desktop_capabilities_carry_the_capture_backend() {
    let availability = CallCaptureAvailability::Available { backend: "screencapturekit".into() };
    let caps = desktop_capabilities_with_updates_enabled(Platform::MacOs, true, &availability);
    assert_eq!(caps.native_call_capture.backend.as_deref(), Some("screencapturekit"));
    assert!(caps.updates_enabled);
}
