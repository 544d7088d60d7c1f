use minutes_core::config::{
    append_palette_section, call_detection_has_sentinel, minutes_dir, palette_migration,
    raw_toml_has_section, set_call_detection_sentinel, CallDetectionConfig, DailyNotesConfig,
    DictationConfig, PaletteConfig, RecordingConfig, SearchConfig, SummarizationConfig,
    TranscriptionConfig, WatchConfig,
};

#[test]
fn raw_toml_has_section_matches_top_level_headers() {
    assert!(raw_toml_has_section("[palette]\nx = 1\n", "palette"));
    assert!(raw_toml_has_section("# header\n[palette]", "palette"));
    assert!(raw_toml_has_section("[other]\nx=1\n\n[palette]\ny=2\n", "palette"));
}

#[test]
fn raw_toml_has_section_ignores_commented_headers() {
    assert!(!raw_toml_has_section("# [palette]\n", "palette"));
    assert!(!raw_toml_has_section("  # [palette]\n", "palette"));
}

#[test]
fn raw_toml_has_section_rejects_non_matching_sections() {
    assert!(!raw_toml_has_section("[dictation]\n", "palette"));
    assert!(!raw_toml_has_section("[palette.inner]\n", "palette"));
}

#[test]
fn raw_toml_has_section_accepts_indented_header() {
    assert!(raw_toml_has_section("  [palette]  \r\n", "palette"));
}

#[test]
fn palette_default_is_enabled() {
    let palette = PaletteConfig::default();
    assert!(palette.shortcut_enabled);
    assert_eq!(palette.shortcut, "CmdOrCtrl+Shift+K");
}

#[test]
fn append_palette_section_preserves_existing_text() {
    let raw = "# keep this comment\nunknown_key = 7\n";
    let appended = append_palette_section(raw, &PaletteConfig::default());

    assert!(appended.starts_with("# keep this comment\nunknown_key = 7\n"));
    assert!(raw_toml_has_section(&appended, "palette"));
    assert!(appended.contains("shortcut_enabled = true"));
    assert!(appended.contains("shortcut = \"CmdOrCtrl+Shift+K\""));
}

#[test]
fn append_palette_section_exact_text() {
    let palette = PaletteConfig { shortcut_enabled: false, shortcut: "CmdOrCtrl+Shift+O".into() };
    assert_eq!(
        append_palette_section("a = 1\n\n\n", &palette),
        "a = 1\n\n[palette]\nshortcut_enabled = false\nshortcut = \"CmdOrCtrl+Shift+O\"\n"
    );
    assert_eq!(
        append_palette_section("", &palette),
        "[palette]\nshortcut_enabled = false\nshortcut = \"CmdOrCtrl+Shift+O\"\n"
    );
}

#[test]
fn fresh_install_keeps_palette_enabled() {
    // No file: the upgrade step writes nothing.
    assert_eq!(palette_migration(None, &PaletteConfig::default()), None);
    assert!(PaletteConfig::default().shortcut_enabled);
}

#[test]
fn palette_migration_runs_once() {
    let palette = PaletteConfig::default();
    let migrated = palette_migration(Some("[dictation]\nmodel = \"base\"\n"), &palette).unwrap();
    assert!(migrated.starts_with("[dictation]\nmodel = \"base\"\n\n[palette]\n"));
    assert_eq!(palette_migration(Some(&migrated), &palette), None);
    assert_eq!(palette_migration(Some("[palette]\nshortcut_enabled = false\n"), &palette), None);
}

#[test]
fn default_config_is_valid() {
    let transcription = TranscriptionConfig::defaults_for_home("/home/u");
    assert_eq!(transcription.engine, "whisper");
    assert_eq!(transcription.model, "small");
    assert_eq!(transcription.min_words, 3);
    assert_eq!(transcription.parakeet_binary, "parakeet");
    assert_eq!(transcription.parakeet_model, "tdt-ctc-110m");
    assert_eq!(transcription.parakeet_vocab, "vocab.txt");
    assert_eq!(transcription.model_path, "/home/u/.minutes/models");
    assert_eq!(SummarizationConfig::defaults_with_agent("codex").engine, "auto");
    assert_eq!(SummarizationConfig::defaults_with_agent("codex").agent_command, "codex");
    assert_eq!(SearchConfig::default().engine, "builtin");
    assert!(!DailyNotesConfig::defaults_for_home("/home/u").enabled);
    assert!(DictationConfig::default().accumulate);
    assert!(CallDetectionConfig::default().enabled);
    let watch = WatchConfig::defaults_for_home("/home/u");
    assert_eq!(watch.settle_delay_ms, 2000);
    assert!(!watch.extensions.is_empty());
    assert_eq!(watch.paths, vec!["/home/u/.minutes/inbox".to_string()]);
    let recording = RecordingConfig::default();
    assert!(!recording.auto_call_intent);
    assert!(!recording.allow_degraded_call_capture);
}

#[test]
fn default_language_is_none() {
    assert_eq!(TranscriptionConfig::defaults_for_home("/home/u").language, None);
}

#[test]
fn home_dependent_defaults_join_paths() {
    assert_eq!(minutes_dir("/home/u"), "/home/u/.minutes");
    assert_eq!(minutes_dir("/home/u/"), "/home/u/.minutes");
    assert_eq!(DailyNotesConfig::defaults_for_home("/h").path, "/h/meetings/daily");
}

#[test]
fn call_detection_sentinel_toggle_is_idempotent() {
    let mut config = CallDetectionConfig::default();
    assert!(!call_detection_has_sentinel(&config, "google-meet"));

    set_call_detection_sentinel(&mut config, "google-meet", true);
    assert!(call_detection_has_sentinel(&config, "google-meet"));

    set_call_detection_sentinel(&mut config, "google-meet", true);
    assert_eq!(config.apps.iter().filter(|app| app.as_str() == "google-meet").count(), 1);

    set_call_detection_sentinel(&mut config, "google-meet", false);
    assert!(!call_detection_has_sentinel(&config, "google-meet"));
    assert_eq!(config.apps, vec!["zoom.us".to_string(), "Microsoft Teams".to_string(), "Webex".to_string()]);
}
