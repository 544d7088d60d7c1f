use minutes_core::app_state::{
    calendar_status, microphone_status, output_dir_status, vault_setup_detail, vault_status, vault_summary,
    watcher_status,
    CalendarProbe, VaultHealth,
};
use minutes_core::platform::Platform;

#[test]
fn microphone_status_counts_devices() {
    let one = microphone_status(1);
    assert_eq!(one.state, "ready");
    assert_eq!(
        one.detail,
        "1 audio input device detected. Minutes may still prompt for microphone access the first time you record."
    );
    assert!(!one.optional);
    let three = microphone_status(3);
    assert!(three.detail.starts_with("3 audio input devices detected."));
    let none = microphone_status(0);
    assert_eq!(none.state, "attention");
    assert_eq!(
        none.detail,
        "No audio input devices detected. Check hardware and system audio settings."
    );
}

#[test]
fn watcher_status_reports_missing_folders() {
    assert_eq!(watcher_status(0, 0).state, "attention");
    assert_eq!(
        watcher_status(0, 0).detail,
        "No watch folders configured. Voice-memo ingestion is available but not set up."
    );
    assert_eq!(watcher_status(2, 2).state, "ready");
    assert_eq!(watcher_status(2, 2).detail, "2 watch folders ready for inbox processing.");
    assert_eq!(watcher_status(1, 1).detail, "1 watch folder ready for inbox processing.");
    let partial = watcher_status(1, 3);
    assert_eq!(partial.state, "attention");
    assert_eq!(
        partial.detail,
        "1 of 3 watch folders currently exist. Missing folders will prevent automatic inbox processing."
    );
    assert!(partial.optional);
}

#[test]
fn output_dir_status_says_where_meetings_go() {
    let ready = output_dir_status("/home/u/meetings", true);
    assert_eq!(ready.label, "Meeting output folder");
    assert_eq!(ready.detail, "Meeting markdown is stored in /home/u/meetings.");
    let missing = output_dir_status("/home/u/meetings", false);
    assert_eq!(missing.state, "attention");
    assert_eq!(
        missing.detail,
        "Output folder /home/u/meetings does not exist yet. Minutes will create it on demand."
    );
}

#[test]
fn calendar_status_follows_the_probe() {
    let other = calendar_status(Platform::Linux, &CalendarProbe::Answered);
    assert_eq!(other.state, "unsupported");
    let ok = calendar_status(Platform::MacOs, &CalendarProbe::Answered);
    assert_eq!(ok.state, "ready");
    let refused = calendar_status(Platform::MacOs, &CalendarProbe::Refused("  not authorized \n".into()));
    assert_eq!(refused.state, "attention");
    assert_eq!(
        refused.detail,
        "Calendar access is unavailable right now (not authorized). Suggestions will stay hidden until access is granted."
    );
    let silent = calendar_status(Platform::MacOs, &CalendarProbe::Refused(" \n".into()));
    assert_eq!(
        silent.detail,
        "Calendar access is unavailable right now. Suggestions will stay hidden until access is granted."
    );
    let broken = calendar_status(Platform::MacOs, &CalendarProbe::CouldNotRun("no osascript".into()));
    assert_eq!(
        broken.detail,
        "Calendar checks are unavailable right now (no osascript). Suggestions will stay hidden."
    );
}

#[test]
fn vault_status_names_the_problem() {
    assert_eq!(vault_status(&VaultHealth::NotConfigured).state, "attention");
    let healthy = vault_status(&VaultHealth::Healthy { strategy: "symlink".into(), path: "/v".into() });
    assert_eq!(healthy.state, "ready");
    assert_eq!(healthy.detail, "Strategy: symlink. Path: /v.");
    let broken = vault_status(&VaultHealth::BrokenSymlink { link_path: "/a".into(), target: "/b".into() });
    assert_eq!(broken.detail, "Broken symlink at /a → /b. Re-run vault setup.");
    assert_eq!(
        vault_status(&VaultHealth::PermissionDenied { path: "/v".into() }).detail,
        "Permission denied: /v. Try Set Up Vault from the app."
    );
    assert_eq!(
        vault_status(&VaultHealth::MissingVaultDir { path: "/v".into() }).detail,
        "Vault directory missing: /v."
    );
}

#[test]
fn vault_summary_fields() {
    let none = vault_summary(&VaultHealth::NotConfigured);
    assert_eq!((none.status.as_str(), none.strategy.as_str(), none.path.as_str(), none.detail.as_str()),
        ("not_configured", "", "", "Not configured"));
    let ok = vault_summary(&VaultHealth::Healthy { strategy: "copy".into(), path: "/v".into() });
    assert_eq!((ok.status.as_str(), ok.strategy.as_str(), ok.path.as_str(), ok.detail.as_str()),
        ("healthy", "copy", "/v", "Vault active at /v"));
    let broken = vault_summary(&VaultHealth::BrokenSymlink { link_path: "/a".into(), target: "/b".into() });
    assert_eq!((broken.status.as_str(), broken.strategy.as_str(), broken.path.as_str(), broken.detail.as_str()),
        ("broken", "symlink", "/a", "Broken symlink → /b"));
    let denied = vault_summary(&VaultHealth::PermissionDenied { path: "/v".into() });
    assert_eq!((denied.status.as_str(), denied.detail.as_str()), ("permission_denied", "Permission denied"));
    let missing = vault_summary(&VaultHealth::MissingVaultDir { path: "/v".into() });
    assert_eq!((missing.status.as_str(), missing.path.as_str(), missing.detail.as_str()), ("missing", "/v", "Vault directory missing"));
}

#[test]
fn vault_setup_detail_reports_health() {
    assert_eq!(
        vault_setup_detail(&VaultHealth::Healthy { strategy: "symlink".into(), path: "/v/meetings".into() }),
        "Vault configured (symlink): /v/meetings"
    );
    assert_eq!(
        vault_setup_detail(&VaultHealth::NotConfigured),
        "Vault configured but health check shows issues. Check Readiness Center."
    );
}
