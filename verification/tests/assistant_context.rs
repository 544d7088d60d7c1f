use minutes_core::assistant_context::{
    active_meeting_file, assistant_context, intent_label, meeting_context, IntentEntry,
    MeetingFacts,
};
use minutes_core::intents::{Decision, Intent, IntentKind};
use minutes_core::markdown::ContentType;
use minutes_core::search::SearchResult;

fn result(i: usize) -> SearchResult {
    SearchResult {
        path: format!("/m/{}.md", i),
        title: format!("Meeting {}", i),
        date: "2026-04-08".to_string(),
        content_type: "meeting".to_string(),
        snippet: String::new(),
    }
}

fn entry(title: &str, status: &str, who: Option<&str>) -> IntentEntry {
    IntentEntry {
        title: title.to_string(),
        kind: IntentKind::ActionItem,
        what: "Send doc".to_string(),
        who: who.map(|s| s.to_string()),
        status: status.to_string(),
        by_date: Some("Friday".to_string()),
    }
}

#[test]
fn intent_labels() {
    assert_eq!(intent_label(IntentKind::ActionItem), "action-item");
    assert_eq!(intent_label(IntentKind::Commitment), "commitment");
    assert_eq!(intent_label(IntentKind::Decision), "decision");
    assert_eq!(intent_label(IntentKind::OpenQuestion), "open-question");
    assert_eq!(active_meeting_file(), "CURRENT_MEETING.md");
}

#[test]
fn assistant_context_lists_recent_meetings_and_open_intents() {
    let recent: Vec<SearchResult> = (0..12).map(result).collect();
    let mut entries = vec![entry("Sync", "done", None)];
    for i in 0..20 {
        entries.push(entry(&format!("M{}", i), "open", if i == 0 { Some("sam") } else { None }));
    }
    let md = assistant_context("/Users/me/meetings", &recent, &entries);
    assert!(md.starts_with("# Minutes Assistant\n\n"));
    assert!(md.contains("## Meeting Directory\n`/Users/me/meetings`\n\n"));
    assert!(md.contains("## Recent Meetings\n- **Meeting 0** (2026-04-08) [meeting] — `/m/0.md`\n"));
    assert!(md.contains("- **Meeting 9**"));
    assert!(!md.contains("- **Meeting 10**"));
    assert!(md.contains(
        "## Open Action Items & Commitments\n- [M0] **action-item**: Send doc (@sam) — due Friday\n"
    ));
    assert!(md.contains("- [M14] **action-item**"));
    assert!(!md.contains("- [M15]"));
    assert!(!md.contains("[Sync]"));
    assert!(md.contains("- `grep -ril \"keyword\" /Users/me/meetings/` — raw file search\n"));
    assert!(md.contains("If `CURRENT_MEETING.md` exists in this directory"));
    assert!(md.ends_with("- You can create files in this directory to save artifacts\n"));
}

#[test]
fn assistant_context_without_history_skips_sections() {
    let md = assistant_context("/m", &Vec::new(), &Vec::new());
    assert!(!md.contains("## Recent Meetings"));
    assert!(!md.contains("## Open Action Items"));
    assert!(md.contains("`/m`\n\n## Minutes CLI Commands\n"));
}

#[test]
fn meeting_context_renders_facts_and_truncates_long_content() {
    let facts = MeetingFacts {
        title: "Pricing Review".to_string(),
        date: "April 08, 2026 09:30".to_string(),
        duration: "12m 5s".to_string(),
        content_type: ContentType::Meeting,
        attendees: vec!["Alex".to_string(), "Sam".to_string()],
        context: Some("Q3 pricing".to_string()),
        calendar_event: None,
        decisions: vec![
            Decision { text: "Raise prices".to_string(), topic: Some("pricing".to_string()) },
            Decision { text: "Ship it".to_string(), topic: None },
        ],
        intents: vec![
            Intent {
                kind: IntentKind::Commitment,
                what: "Share model".to_string(),
                who: Some("sam".to_string()),
                status: "open".to_string(),
                by_date: None,
            },
            Intent {
                kind: IntentKind::Decision,
                what: "Raise prices".to_string(),
                who: None,
                status: "decided".to_string(),
                by_date: None,
            },
        ],
    };
    let md = meeting_context(&facts, "/m/pricing.md", "short body", "/m");
    assert!(md.starts_with(
        "# Meeting Context\n\nYou are helping the user analyze a specific meeting recording.\n\n## Pricing Review\n- **Date**: April 08, 2026 09:30\n- **Duration**: 12m 5s\n- **Type**: meeting\n- **Attendees**: Alex, Sam\n- **Context**: Q3 pricing\n\n"
    ));
    assert!(md.contains(
        "## Decisions Made\n- Raise prices (topic: pricing)\n- Ship it\n\n## Open Action Items\n- **commitment**: Share model (@sam)\n\n## Full Content\n\n"
    ));
    assert!(md.contains("available at:\n`/m/pricing.md`\n\nshort body\n\n## Instructions\n\n"));
    assert!(md.contains("- All meetings are at `/m` if you need to cross-reference\n"));

    let long: String = "é".repeat(12_001);
    let md = meeting_context(&facts, "/m/p.md", &long, "/m");
    let kept: String = "é".repeat(12_000);
    assert!(md.contains(&format!(
        "{}\n\n...[transcript truncated — read the full file for the rest]\n",
        kept
    )));
    assert!(!md.contains(&long));
}
