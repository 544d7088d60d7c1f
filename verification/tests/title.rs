use minutes_core::title::{
    clean_transcript_line, finalize_title, generate_title, strip_lead_in_phrase,
    title_from_context, to_display_title,
};

#[test]
fn generate_title_takes_first_words() {
    let transcript = "We need to discuss the new pricing strategy for Q2";
    let title = generate_title(transcript, None);
    assert_eq!(title, "The New Pricing Strategy for Q2");
}

#[test]
fn generate_title_strips_timestamps_and_speaker_labels() {
    let transcript = "[SPEAKER_0 0:00] let's talk about API launch timeline for Q2";
    let title = generate_title(transcript, None);
    assert_eq!(title, "API Launch Timeline for Q2");
}

#[test]
fn generate_title_prefers_context_when_available() {
    let transcript = "Okay so I just had an idea about onboarding";
    let title = generate_title(transcript, Some("Q2 pricing discussion with Alex"));
    assert_eq!(title, "Q2 Pricing Discussion with Alex");
}

#[test]
fn generate_title_falls_back_when_only_timestamps_exist() {
    let transcript = "[0:00]";
    let title = generate_title(transcript, None);
    assert_eq!(title, "Untitled Recording");
}

#[test]
fn generate_title_rejects_hallucinated_cjk() {
    let transcript = "スパイシー";
    let title = generate_title(transcript, None);
    assert_eq!(title, "Untitled Recording");
}

#[test]
fn generate_title_rejects_mixed_hallucination() {
    let transcript = "[0:00] スパイシー\n[0:05] 東京タワー";
    let title = generate_title(transcript, None);
    assert_eq!(title, "Untitled Recording");
}

#[test]
fn generate_title_allows_latin_with_accents() {
    let transcript = "café résumé naïve";
    let title = generate_title(transcript, None);
    assert_ne!(title, "Untitled Recording");
}

#[test]
fn generate_title_allows_polish_with_extended_latin() {
    let transcript = "Meeting in Łódź about the project";
    let title = generate_title(transcript, None);
    assert_ne!(title, "Untitled Recording");
}

#[test]
fn generate_title_allows_purely_accented_latin() {
    let transcript = "Łódź Gdańsk Wrocław";
    let title = generate_title(transcript, None);
    assert_ne!(title, "Untitled Recording");
}

#[test]
fn generate_title_rejects_cyrillic() {
    let transcript = "Привет мир";
    let title = generate_title(transcript, None);
    assert_eq!(title, "Untitled Recording");
}

#[test]
fn generate_title_below_threshold_seam() {
    let transcript =
        "[0:00] スパイシー\n[0:05] Hello world\n[0:10] Good morning\n[0:15] 東京\n[0:20] Testing";
    let title = generate_title(transcript, None);
    assert_eq!(title, "Untitled Recording");
}

#[test]
fn generic_context_falls_back_to_transcript() {
    assert_eq!(title_from_context("  Voice   Memo "), None);
    assert_eq!(
        generate_title("let's discuss hiring plan", Some("meeting")),
        "Hiring Plan"
    );
}

#[test]
fn long_titles_are_truncated_with_ellipsis() {
    let long = "a".repeat(61);
    let out = finalize_title(long);
    assert_eq!(out.chars().count(), 60);
    assert!(out.ends_with("..."));
    assert_eq!(finalize_title("short".to_string()), "short");
}

#[test]
fn display_title_keeps_acronyms_and_first_sentence() {
    assert_eq!(to_display_title("...the API of the year. More text"), "The API of the Year");
}

#[test]
fn clean_line_drops_bracket_groups_and_rejects_unclosed() {
    assert_eq!(
        clean_transcript_line("  [SPEAKER_1 0:03]  [Bell]   hello   there "),
        Some("hello there".to_string())
    );
    assert_eq!(clean_transcript_line("[0:00 unclosed"), None);
    assert_eq!(strip_lead_in_phrase("Let's   Talk about budgets"), "budgets");
}

#[test]
fn strip_lead_in_cuts_at_the_lead_in_byte_length() {
    // The Kelvin sign lowercases to a one-byte 'k' but takes three bytes
    // itself, so the cut after the lead-in's bytes lands two bytes early.
    assert_eq!(strip_lead_in_phrase("Let's tal\u{212A} about X"), "t X");
}
