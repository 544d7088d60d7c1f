use minutes_core::search::{
    extract_field, extract_snippet, match_document, search_documents, split_frontmatter,
    SearchFilters,
};

fn no_filters() -> SearchFilters {
    SearchFilters { content_type: None, since: None, attendee: None }
}

#[test]
fn split_frontmatter_works() {
    let content = "---\ntitle: Test\ndate: 2026-03-17\n---\n\nBody text here.";
    let (fm, body) = split_frontmatter(content);
    assert!(fm.contains("title: Test"));
    assert!(body.contains("Body text here"));
}

#[test]
fn split_frontmatter_without_fence_is_all_body() {
    let (fm, body) = split_frontmatter("no frontmatter");
    assert_eq!(fm, "");
    assert_eq!(body, "no frontmatter");
    let (fm, body) = split_frontmatter("---\nunterminated");
    assert_eq!(fm, "");
    assert_eq!(body, "---\nunterminated");
}

#[test]
fn extract_field_finds_value() {
    let fm = "title: My Meeting\ndate: 2026-03-17\ntype: meeting";
    assert_eq!(extract_field(fm, "title"), Some("My Meeting".into()));
    assert_eq!(extract_field(fm, "type"), Some("meeting".into()));
    assert_eq!(extract_field(fm, "nonexistent"), None);
}

#[test]
fn extract_field_strips_quotes() {
    assert_eq!(extract_field("  title: \"Quoted\"  ", "title"), Some("Quoted".into()));
    assert_eq!(extract_field("title: 'Single'", "title"), Some("Single".into()));
}

#[test]
fn search_finds_matching_content() {
    let docs = vec![(
        "/m/2026-03-17-test.md".to_string(),
        "---\ntitle: Test Meeting\ndate: 2026-03-17\ntype: meeting\n---\n\n## Transcript\n\nWe discussed pricing strategy in detail."
            .to_string(),
    )];
    let results = search_documents(&docs, "pricing", &no_filters());
    assert_eq!(results.len(), 1);
    assert!(results[0].snippet.contains("pricing"));
    assert_eq!(results[0].snippet, "We discussed pricing strategy in detail.");
    assert_eq!(results[0].title, "Test Meeting");
}

#[test]
fn search_returns_empty_for_no_match() {
    let docs = vec![(
        "/m/test.md".to_string(),
        "---\ntitle: Test\ndate: 2026-03-17\n---\n\nHello world.".to_string(),
    )];
    assert!(search_documents(&docs, "nonexistent", &no_filters()).is_empty());
}

#[test]
fn search_is_case_insensitive() {
    let docs = vec![(
        "/m/test.md".to_string(),
        "---\ntitle: Test\ndate: 2026-03-17\n---\n\nPRICING discussion".to_string(),
    )];
    let results = search_documents(&docs, "pricing", &no_filters());
    assert_eq!(results.len(), 1);
    assert_eq!(results[0].snippet, "PRICING discussion");
}

#[test]
fn search_empty_directory() {
    let docs: Vec<(String, String)> = Vec::new();
    assert!(search_documents(&docs, "anything", &no_filters()).is_empty());
}

#[test]
fn search_orders_newest_first_and_keeps_ties_in_order() {
    let doc = |p: &str, d: &str| (p.to_string(), format!("---\ntitle: T\ndate: {}\n---\nalpha", d));
    let docs = vec![doc("a", "2026-01-01"), doc("b", "2026-03-01"), doc("c", "2026-01-01"), doc("d", "2026-02-01")];
    let results = search_documents(&docs, "ALPHA", &no_filters());
    let order: Vec<&str> = results.iter().map(|r| r.path.as_str()).collect();
    assert_eq!(order, vec!["b", "d", "a", "c"]);
}

#[test]
fn search_filters_apply() {
    let content = "---\ntitle: Sync\ndate: 2026-03-17\ntype: memo\nattendees: [Alex Smith]\n---\nbudget talk";
    let mut filters = no_filters();
    filters.content_type = Some("meeting".into());
    assert!(match_document("p", content, "budget", &filters).is_none());
    filters.content_type = Some("memo".into());
    assert!(match_document("p", content, "budget", &filters).is_some());
    filters.since = Some("2026-04-01".into());
    assert!(match_document("p", content, "budget", &filters).is_none());
    filters.since = Some("2026-03-01".into());
    filters.attendee = Some("ALEX".into());
    assert!(match_document("p", content, "budget", &filters).is_some());
    filters.attendee = Some("jordan".into());
    assert!(match_document("p", content, "budget", &filters).is_none());
}

#[test]
fn snippet_is_the_matching_line_cut_to_200_chars() {
    let long = "x".repeat(250);
    let body = format!("first line\n  {} needle  \nlast", long);
    let snippet = extract_snippet(&body, "needle");
    assert_eq!(snippet, format!("{}...", "x".repeat(200)));
    assert_eq!(extract_snippet("a\nb", "zzz"), "");
    assert_eq!(extract_snippet("one\nTwo Words\nthree", "two"), "Two Words");
}
