use minutes_core::shortcuts::validate_shortcut_request;
use minutes_core::numbers::{parse_i64, parse_u64};
use minutes_core::settings::{
    lookup_setting, parse_setting, setting_confirmation, FlagSetting, NumberSetting,
    OptionalSetting, SettingChange, SettingKey, TextSetting,
};

fn chars(s: &str) -> Vec<char> {
    s.chars().collect()
}

#[test]
fn numbers_read_like_str_parse() {
    assert_eq!(parse_u64(&chars("42")), Some(42));
    assert_eq!(parse_u64(&chars("+7")), Some(7));
    assert_eq!(parse_u64(&chars("18446744073709551615")), Some(u64::MAX));
    assert_eq!(parse_u64(&chars("18446744073709551616")), None);
    assert_eq!(parse_u64(&chars("-1")), None);
    assert_eq!(parse_u64(&chars("")), None);
    assert_eq!(parse_u64(&chars(" 1")), None);
    assert_eq!(parse_i64(&chars("-57")), Some(-57));
    assert_eq!(parse_i64(&chars("+63")), Some(63));
    assert_eq!(parse_i64(&chars("-9223372036854775808")), Some(i64::MIN));
    assert_eq!(parse_i64(&chars("9223372036854775807")), Some(i64::MAX));
    assert_eq!(parse_i64(&chars("9223372036854775808")), None);
    assert_eq!(parse_i64(&chars("-")), None);
    assert_eq!(parse_i64(&chars("-+1")), None);
    for s in ["0", "12", "-3", "+4", "x", "", "99999999999999999999"] {
        assert_eq!(parse_i64(&chars(s)), s.parse::<i64>().ok());
        assert_eq!(parse_u64(&chars(s)), s.parse::<u64>().ok());
    }
}

#[test]
fn settings_are_looked_up_by_section_and_key() {
    assert_eq!(
        lookup_setting("transcription", "model"),
        Some(SettingKey::Text(TextSetting::TranscriptionModel))
    );
    assert_eq!(
        lookup_setting("dictation", "hotkey_keycode"),
        Some(SettingKey::HotkeyKeycode)
    );
    assert_eq!(
        lookup_setting("call_detection", "google_meet_enabled"),
        Some(SettingKey::Flag(FlagSetting::CallDetectionGoogleMeet))
    );
    assert_eq!(lookup_setting("dictation", "max_utterance_secs"), None);
    assert_eq!(lookup_setting("privacy", "hide_from_screen_share"), None);
}

#[test]
fn setting_values_are_read_by_kind() {
    match parse_setting("transcription", "language", "  fr ") {
        Ok(SettingChange::Optional(OptionalSetting::TranscriptionLanguage, v)) => {
            assert_eq!(v.as_deref(), Some("fr"))
        }
        _ => panic!("expected a language"),
    }
    match parse_setting("recording", "device", "   ") {
        Ok(SettingChange::Optional(OptionalSetting::RecordingDevice, v)) => assert_eq!(v, None),
        _ => panic!("expected a device"),
    }
    match parse_setting("screen_context", "enabled", "yes") {
        Ok(SettingChange::Flag(FlagSetting::ScreenContextEnabled, v)) => assert!(!v),
        _ => panic!("expected a flag"),
    }
    match parse_setting("dictation", "silence_timeout_ms", "1500") {
        Ok(SettingChange::Number(NumberSetting::DictationSilenceTimeoutMs, v)) => assert_eq!(v, 1500),
        _ => panic!("expected a number"),
    }
    match parse_setting("assistant", "agent_args", " --model  opus ") {
        Ok(SettingChange::AgentArgs(v)) => {
            assert_eq!(v, vec!["--model".to_string(), "opus".to_string()])
        }
        _ => panic!("expected arguments"),
    }
    match parse_setting("assistant", "agent_args", "  ") {
        Ok(SettingChange::AgentArgs(v)) => assert!(v.is_empty()),
        _ => panic!("expected arguments"),
    }
    match parse_setting("dictation", "hotkey_keycode", "63") {
        Ok(SettingChange::HotkeyKeycode(v)) => assert_eq!(v, 63),
        _ => panic!("expected a keycode"),
    }
    match parse_setting("summarization", "ollama_url", "http://x:1") {
        Ok(SettingChange::Text(TextSetting::SummarizationOllamaUrl, v)) => {
            assert_eq!(v, "http://x:1")
        }
        _ => panic!("expected text"),
    }
}

#[test]
fn bad_settings_are_refused() {
    assert_eq!(
        parse_setting("call_detection", "cooldown_minutes", "soon").err(),
        Some("cooldown_minutes must be a number".to_string())
    );
    assert_eq!(
        parse_setting("dictation", "hotkey_keycode", "caps").err(),
        Some("hotkey_keycode must be a number".to_string())
    );
    assert_eq!(
        parse_setting("video", "fps", "30").err(),
        Some("Unknown setting: video.fps".to_string())
    );
    assert_eq!(
        setting_confirmation("dictation", "model", "base"),
        "Set dictation.model = base"
    );
}

#[test]
fn shortcut_requests_are_checked() {
    assert_eq!(validate_shortcut_request("CmdOrCtrl+Shift+K", 57), Ok(()));
    assert_eq!(validate_shortcut_request("", -1), Ok(()));
    assert_eq!(
        validate_shortcut_request(&"a".repeat(51), 1),
        Err("Shortcut string too long (max 50 characters)".to_string())
    );
    assert_eq!(validate_shortcut_request(&"é".repeat(25), 1), Ok(()));
    assert_eq!(
        validate_shortcut_request(&"é".repeat(26), 1),
        Err("Shortcut string too long (max 50 characters)".to_string())
    );
    assert_eq!(
        validate_shortcut_request("Cmd-K", 1),
        Err("Invalid characters in shortcut: Cmd-K".to_string())
    );
    assert_eq!(
        validate_shortcut_request("K", 256),
        Err("Invalid keycode: 256".to_string())
    );
    assert_eq!(
        validate_shortcut_request("K", -2),
        Err("Invalid keycode: -2".to_string())
    );
    assert_eq!(
        validate_shortcut_request("K", i64::MIN),
        Err(format!("Invalid keycode: {}", i64::MIN))
    );
}
