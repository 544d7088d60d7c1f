use minutes_core::app_state::OutputNotice;
use minutes_core::meetings::{
    current_meeting_candidates, escape_applescript_literal, extract_paste_text, lifecycle_badges,
    notification_script, saved_notice_path,
};
use minutes_core::platform::Platform;

fn strings(v: &[&str]) -> Vec<String> {
    v.iter().map(|s| s.to_string()).collect()
}

#[test]
fn extract_paste_text_returns_summary_section() {
    let content = "---\ntitle: Demo\n---\n\n## Summary\n\nShort summary.\n\n## Transcript\n\nFull transcript.\n";
    let summary = extract_paste_text(content, "summary").unwrap();
    assert_eq!(summary, "Short summary.");
}

#[test]
fn extract_paste_text_rejects_missing_summary() {
    let content = "---\ntitle: Demo\n---\n\n## Transcript\n\nFull transcript.\n";
    assert!(extract_paste_text(content, "summary").is_err());
}

#[test]
fn extract_paste_text_other_cases() {
    let content = "---\ntitle: Demo\n---\n\n## summary\n\n   \n\n## TRANSCRIPT\n\n[0:00] hi\n";
    assert_eq!(
        extract_paste_text(content, "summary"),
        Err("The latest artifact does not contain a summary section.".to_string())
    );
    assert_eq!(extract_paste_text(content, "transcript").unwrap(), "[0:00] hi");
    assert_eq!(
        extract_paste_text(content, "notes"),
        Err("Unsupported paste payload: notes. Use 'summary' or 'transcript'.".to_string())
    );
}

#[test]
fn saved_notices_point_at_artifacts() {
    let saved = OutputNotice {
        kind: "saved".into(),
        title: "Sync".into(),
        path: "/m/sync.md".into(),
        detail: String::new(),
    };
    assert_eq!(saved_notice_path(Some(&saved)).as_deref(), Some("/m/sync.md"));
    let blank = OutputNotice { path: "  ".into(), ..saved.clone() };
    assert_eq!(saved_notice_path(Some(&blank)), None);
    let error = OutputNotice { kind: "error".into(), ..saved.clone() };
    assert_eq!(saved_notice_path(Some(&error)), None);
    assert_eq!(saved_notice_path(None), None);
}

#[test]
fn lifecycle_badges_follow_the_meeting() {
    assert_eq!(
        lifecycle_badges(
            &strings(&["Alex Kim"]),
            &strings(&["alex"]),
            "## Summary\n\nx",
            false,
            &strings(&["open", "done"]),
        ),
        strings(&["prepped", "recorded", "debriefed"])
    );
    assert!(lifecycle_badges(&Vec::new(), &Vec::new(), "notes", false, &strings(&["open"])).is_empty());
    assert_eq!(
        lifecycle_badges(&Vec::new(), &Vec::new(), "", true, &Vec::new()),
        strings(&["debriefed"])
    );
}

#[test]
fn applescript_literals_are_escaped_on_macos_only() {
    assert_eq!(escape_applescript_literal(Platform::MacOs, "say \"hi\"\\\nnow"), "say \\\"hi\\\"\\\\ now");
    assert_eq!(escape_applescript_literal(Platform::Linux, "say \"hi\""), "say \"hi\"");
}

#[test]
fn notification_script_escapes_body_and_title() {
    assert_eq!(
        notification_script("Saved \"standup\"", "Quick thought"),
        "display notification \"Saved \\\"standup\\\"\" with title \"Minutes\" subtitle \"Quick thought\""
    );
}

#[test]
fn current_meeting_candidates_skip_comments_and_blank_lines() {
    let contents = "# Current meeting\n\n  [Team Sync](/Users/x/meetings/sync.md)  \nnot a path\npath: /Users/x/meetings/call.md\r\n";
    assert_eq!(
        current_meeting_candidates(contents),
        vec!["/Users/x/meetings/sync.md".to_string(), "/Users/x/meetings/call.md".to_string()]
    );
    assert!(current_meeting_candidates("# only a heading\n").is_empty());
}
