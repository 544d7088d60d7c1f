use minutes_core::daily_notes::{
    append_backlink_step, backlink_note, relative_or_absolute_link, section_insert_position, summary_excerpt,
};
use minutes_core::markdown::{ContentType, WriteResult};

fn write_result(path: &str, title: &str, content_type: ContentType) -> WriteResult {
    WriteResult { path: path.to_string(), title: title.to_string(), word_count: 10, content_type }
}

#[test]
fn append_backlink_creates_daily_note_sections() {
    let result = write_result("/x/meetings/2026-03-19-pricing-review.md", "Pricing Review", ContentType::Meeting);
    let note = backlink_note(
        None,
        "2026-03-19",
        &result,
        Some("## Summary\n\n- Locked pricing at monthly billing.\n"),
        "../meetings/2026-03-19-pricing-review.md",
    )
    .unwrap();
    assert!(note.contains("# 2026-03-19"));
    assert!(note.contains("## Meetings"));
    assert!(note.contains("[Pricing Review]("));
    assert!(note.contains("Locked pricing at monthly billing."));
    assert_eq!(
        note,
        "# 2026-03-19\n\n## Meetings\n\n- [Pricing Review](../meetings/2026-03-19-pricing-review.md) \u{2014} Locked pricing at monthly billing.\n"
    );
}

#[test]
fn append_backlink_is_idempotent_for_same_artifact() {
    let result = write_result("/x/meetings/memos/2026-03-19-onboarding.md", "Onboarding Idea", ContentType::Memo);
    let link = "../meetings/memos/2026-03-19-onboarding.md";
    let first = backlink_note(None, "2026-03-19", &result, Some("Short memo summary"), link).unwrap();
    assert_eq!(backlink_note(Some(&first), "2026-03-19", &result, Some("Short memo summary"), link), None);
    assert_eq!(first.matches("[Onboarding Idea](").count(), 1);
    assert!(first.contains("## Voice Memos"));
}

#[test]
fn backlink_goes_into_existing_section() {
    let result = write_result("/m/b.md", "B", ContentType::Meeting);
    let existing = "# 2026-03-19\n\n## Meetings\n\n- [A](a.md)\n\n## Voice Memos\n\n- [M](m.md)\n";
    let note = backlink_note(Some(existing), "2026-03-19", &result, None, "b.md").unwrap();
    assert_eq!(
        note,
        "# 2026-03-19\n\n## Meetings\n\n- [A](a.md)\n- [B](b.md)\n\n## Voice Memos\n\n- [M](m.md)\n"
    );
    let dictation = write_result("/m/d.md", "D", ContentType::Dictation);
    let note2 = backlink_note(Some("# day\n"), "2026-03-19", &dictation, None, "d.md").unwrap();
    assert_eq!(note2, "# day\n\n## Dictations\n\n- [D](d.md)\n");
}

#[test]
fn section_insert_position_finds_next_heading() {
    assert_eq!(section_insert_position(&"## A\nx\n## B\n".chars().collect::<Vec<_>>()), Some(6));
    assert_eq!(section_insert_position(&"## A\nx\n".chars().collect::<Vec<_>>()), None);
    assert_eq!(section_insert_position(&"## A".chars().collect::<Vec<_>>()), None);
}

#[test]
fn summary_excerpt_skips_headings_and_bullets() {
    assert_eq!(summary_excerpt(None), None);
    assert_eq!(summary_excerpt(Some("## Summary\n\n- - Point one\n")), Some("Point one".to_string()));
    assert_eq!(summary_excerpt(Some("\n  \n## Only\n")), None);
    let long = "y".repeat(150);
    assert_eq!(summary_excerpt(Some(&long)), Some(format!("{}...", "y".repeat(140))));
}

#[test]
fn relative_link_climbs_to_common_prefix() {
    let v = |xs: &[&str]| xs.iter().map(|s| s.to_string()).collect::<Vec<_>>();
    assert_eq!(
        relative_or_absolute_link(Some(v(&["u", "daily"])), Some(v(&["u", "meetings", "a.md"])), "/u/meetings/a.md"),
        "../meetings/a.md"
    );
    assert_eq!(
        relative_or_absolute_link(Some(v(&["u", "daily"])), Some(v(&["u", "daily", "a.md"])), "/u/daily/a.md"),
        "a.md"
    );
    assert_eq!(relative_or_absolute_link(None, Some(v(&["a"])), "/abs/a.md"), "/abs/a.md");
}

#[test]
fn append_backlink_step_names_the_same_note_and_writes_once() {
    let result = write_result("/x/memos/2026-03-19-idea.md", "Idea", ContentType::Memo);
    assert!(append_backlink_step(false, "/x/daily", None, "2026-03-19", &result, None, "../memos/2026-03-19-idea.md").is_none());
    let (path, note) =
        append_backlink_step(true, "/x/daily", None, "2026-03-19", &result, Some("Short"), "../memos/2026-03-19-idea.md")
            .unwrap();
    assert_eq!(path, "/x/daily/2026-03-19.md");
    let note = note.unwrap();
    assert!(note.contains("## Voice Memos\n"));
    assert_eq!(note.matches("[Idea](").count(), 1);
    let (again, second) = append_backlink_step(
        true,
        "/x/daily",
        Some(&note),
        "2026-03-19",
        &result,
        Some("Short"),
        "../memos/2026-03-19-idea.md",
    )
    .unwrap();
    assert_eq!(again, path);
    assert_eq!(second, None);
}

#[test]
fn title_with_brackets_is_linked_once() {
    let result = write_result("/x/memos/idea.md", "[draft] Plan", ContentType::Memo);
    let (_, note) =
        append_backlink_step(true, "/x/daily", None, "2026-03-19", &result, None, "../memos/idea.md").unwrap();
    assert_eq!(note.unwrap().matches("[[draft] Plan](").count(), 1);
}

#[test]
fn link_with_brackets_still_links_title_once() {
    let result = write_result("/x/memos/[a].md", "Idea", ContentType::Memo);
    let (_, note) =
        append_backlink_step(true, "/x/daily", None, "2026-03-19", &result, Some("see [notes]"), "../memos/[a].md")
            .unwrap();
    assert_eq!(note.unwrap().matches("[Idea](").count(), 1);
}
