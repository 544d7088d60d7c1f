use minutes_core::attribution::{
    confirm_speaker, deterministic_one_on_one, extend_with_unmapped, has_confirmed_name, has_unmapped_speaker,
    meeting_speaker_map, single_stem_speaker_self_attribution, SelfAttributionAppliedVia,
    SelfAttributionSkippedReason,
};
use minutes_core::capture::{AttributionSource, Confidence, SpeakerAttribution};

fn labels(v: &[&str]) -> Vec<String> {
    v.iter().map(|s| s.to_string()).collect()
}

fn attr(label: &str, name: &str, confidence: Confidence) -> SpeakerAttribution {
    SpeakerAttribution {
        speaker_label: label.to_string(),
        name: name.to_string(),
        confidence,
        source: AttributionSource::Deterministic,
    }
}

#[test]
fn single_stem_speaker_self_attribution_maps_to_identity() {
    let outcome = single_stem_speaker_self_attribution(
        Some("Mat"),
        true,
        true,
        "[SPEAKER_0 0:00] hello\n",
        &labels(&["SPEAKER_0"]),
        &Vec::new(),
        None,
        None,
    );
    let attr = outcome
        .attribution
        .clone()
        .expect("single stem speaker should map to self");

    assert_eq!(attr.name, "Mat");
    assert_eq!(attr.speaker_label, "SPEAKER_0");
    assert_eq!(attr.confidence, Confidence::Medium);
    assert_eq!(attr.source, AttributionSource::Deterministic);
    assert_eq!(
        outcome.debug.applied_via,
        Some(SelfAttributionAppliedVia::FallbackIdentityOnly)
    );
    assert_eq!(
        outcome.debug.fallback_reason,
        Some(SelfAttributionSkippedReason::NoStems)
    );
}

#[test]
fn single_stem_speaker_self_attribution_respects_guards() {
    let no_stable_label = single_stem_speaker_self_attribution(
        Some("Mat"),
        false,
        true,
        "[SPEAKER_2 0:00] hello\n",
        &labels(&["SPEAKER_2"]),
        &Vec::new(),
        None,
        None,
    );
    assert!(!no_stable_label.debug.returned_some);
    assert_eq!(
        no_stable_label.debug.skipped_reason,
        Some(SelfAttributionSkippedReason::NoStableLabel)
    );

    let not_from_stems = single_stem_speaker_self_attribution(
        Some("Mat"),
        false,
        false,
        "[SPEAKER_0 0:00] hello\n",
        &labels(&["SPEAKER_0"]),
        &Vec::new(),
        None,
        None,
    );
    assert!(!not_from_stems.debug.returned_some);
    assert_eq!(
        not_from_stems.debug.skipped_reason,
        Some(SelfAttributionSkippedReason::DiarizationNotFromStems)
    );

    let already_mapped = single_stem_speaker_self_attribution(
        Some("Mat"),
        false,
        true,
        "[SPEAKER_0 0:00] hello\n",
        &labels(&["SPEAKER_0"]),
        &labels(&["SPEAKER_0"]),
        None,
        None,
    );
    assert!(!already_mapped.debug.returned_some);
    assert_eq!(
        already_mapped.debug.skipped_reason,
        Some(SelfAttributionSkippedReason::AlreadyMapped)
    );
}

#[test]
fn single_stem_speaker_self_attribution_handles_unknown_label() {
    let outcome = single_stem_speaker_self_attribution(
        Some("Mat"),
        true,
        true,
        "[UNKNOWN 0:00] Hello there\n",
        &Vec::new(),
        &Vec::new(),
        None,
        None,
    );
    let attr = outcome
        .attribution
        .clone()
        .expect("single unknown label should still map to self");

    assert_eq!(attr.speaker_label, "UNKNOWN");
    assert_eq!(attr.name, "Mat");
    assert_eq!(attr.confidence, Confidence::Medium);
    assert_eq!(
        outcome.debug.applied_via,
        Some(SelfAttributionAppliedVia::FallbackIdentityOnly)
    );
}

#[test]
fn single_stem_self_attribution_skips_remote_only_label_without_voice_match() {
    let outcome = single_stem_speaker_self_attribution(
        Some("Mat"),
        true,
        true,
        "[SPEAKER_1 0:00] remote voice\n",
        &labels(&["SPEAKER_1"]),
        &Vec::new(),
        None,
        None,
    );

    assert!(outcome.attribution.is_none());
    assert_eq!(
        outcome.debug.skipped_reason,
        Some(SelfAttributionSkippedReason::RemoteOnlyLabel)
    );
}

#[test]
fn deterministic_two_person_mapping_stays_medium_confidence() {
    let result = meeting_speaker_map(
        true,
        2,
        &Vec::new(),
        false,
        Some("Mat"),
        &labels(&["Mat", "Alex"]),
        &labels(&["SPEAKER_0", "SPEAKER_1"]),
        true,
        "[SPEAKER_0 0:00] hello\n[SPEAKER_1 0:01] hi\n",
        None,
        None,
    );

    assert_eq!(result.speaker_map.len(), 2);
    assert!(result
        .speaker_map
        .iter()
        .all(|entry| entry.confidence == Confidence::Medium));
    assert_eq!(result.speaker_map[0].name, "Mat");
    assert_eq!(result.speaker_map[1].name, "Alex");
    assert_eq!(
        result.self_attribution.debug.skipped_reason,
        Some(SelfAttributionSkippedReason::AlreadyMapped)
    );
    assert!(!result.needs_named_mapping);
}

#[test]
fn native_call_without_trusted_attendees_maps_only_local_voice_source() {
    let result = meeting_speaker_map(
        true,
        2,
        &Vec::new(),
        true,
        Some("Mat"),
        &Vec::new(),
        &labels(&["SPEAKER_1", "SPEAKER_0"]),
        true,
        "[SPEAKER_1 0:00] hi\n[SPEAKER_0 0:01] hello\n",
        None,
        None,
    );

    assert_eq!(result.speaker_map.len(), 1);
    assert!(result
        .speaker_map
        .iter()
        .any(|entry| entry.speaker_label == "SPEAKER_0"
            && entry.name == "Mat"
            && entry.confidence == Confidence::Medium));
    assert!(
        result
            .speaker_map
            .iter()
            .all(|entry| entry.speaker_label != "SPEAKER_1"),
        "native-call clips without trusted attendees should not invent a remote identity"
    );
    assert!(result.needs_named_mapping);
}

#[test]
fn meeting_without_diarized_speakers_maps_nothing() {
    let result = meeting_speaker_map(
        true,
        0,
        &Vec::new(),
        true,
        Some("Mat"),
        &Vec::new(),
        &labels(&["SPEAKER_0"]),
        true,
        "[SPEAKER_0 0:00] hello\n",
        None,
        None,
    );
    assert!(result.speaker_map.is_empty());
    assert_eq!(
        result.self_attribution.debug.skipped_reason,
        Some(SelfAttributionSkippedReason::NoDiarizedSpeakers)
    );

    let memo = meeting_speaker_map(
        false,
        2,
        &Vec::new(),
        true,
        Some("Mat"),
        &Vec::new(),
        &labels(&["SPEAKER_0"]),
        true,
        "[SPEAKER_0 0:00] hello\n",
        None,
        None,
    );
    assert!(memo.speaker_map.is_empty());
    assert_eq!(
        memo.self_attribution.debug.skipped_reason,
        Some(SelfAttributionSkippedReason::NoStableLabel)
    );
}

#[test]
fn voice_stem_decisions() {
    let empty_stem = single_stem_speaker_self_attribution(
        Some("Mat"),
        true,
        true,
        "[SPEAKER_0 0:00] hello\n",
        &labels(&["SPEAKER_0"]),
        &Vec::new(),
        Some(44),
        Some(Some(true)),
    );
    assert_eq!(
        empty_stem.debug.skipped_reason,
        Some(SelfAttributionSkippedReason::EmptyVoiceStem)
    );

    let matched = single_stem_speaker_self_attribution(
        Some("Mat"),
        true,
        true,
        "[SPEAKER_0 0:00] hello\n",
        &labels(&["SPEAKER_0"]),
        &Vec::new(),
        Some(45),
        Some(Some(true)),
    );
    let a = matched.attribution.clone().unwrap();
    assert_eq!(a.confidence, Confidence::High);
    assert_eq!(a.source, AttributionSource::Enrollment);
    assert_eq!(matched.debug.confidence.as_deref(), Some("high"));
    assert_eq!(
        matched.debug.applied_via,
        Some(SelfAttributionAppliedVia::VoiceStemMatch)
    );

    let failed = single_stem_speaker_self_attribution(
        Some("Mat"),
        true,
        true,
        "[SPEAKER_0 0:00] hello\n",
        &labels(&["SPEAKER_0"]),
        &Vec::new(),
        None,
        Some(None),
    );
    assert_eq!(
        failed.debug.applied_via,
        Some(SelfAttributionAppliedVia::SourceBackedStem)
    );
    assert_eq!(
        failed.debug.fallback_reason,
        Some(SelfAttributionSkippedReason::VoiceStemDiarizationFailed)
    );

    let unknown_with_stems = single_stem_speaker_self_attribution(
        Some("Mat"),
        true,
        true,
        "[UNKNOWN 0:00] hello\n",
        &Vec::new(),
        &Vec::new(),
        None,
        Some(Some(false)),
    );
    assert_eq!(
        unknown_with_stems.debug.skipped_reason,
        Some(SelfAttributionSkippedReason::VoiceStemNoSelfMatch)
    );

    let no_name = single_stem_speaker_self_attribution(
        None,
        true,
        true,
        "[SPEAKER_0 0:00] hello\n",
        &labels(&["SPEAKER_0"]),
        &Vec::new(),
        None,
        None,
    );
    assert_eq!(
        no_name.debug.skipped_reason,
        Some(SelfAttributionSkippedReason::NoSelfProfile)
    );
}

#[test]
fn one_on_one_needs_another_attendee() {
    let same = deterministic_one_on_one(
        Some("Mat"),
        &labels(&["mat", "MAT"]),
        2,
        &labels(&["SPEAKER_0", "SPEAKER_1"]),
        0,
    );
    assert!(same.is_empty());
    let matched_by_voice = deterministic_one_on_one(
        Some("Mat"),
        &labels(&["Mat", "Alex"]),
        2,
        &labels(&["SPEAKER_0", "SPEAKER_1"]),
        1,
    );
    assert!(matched_by_voice.is_empty());
}

#[test]
fn unmapped_speakers_are_found_by_label() {
    let t = "[SPEAKER_0 0:00] hi\n[SPEAKER_1 0:01] yo\n[Mat 0:02] ok\n";
    assert!(has_unmapped_speaker(t, &labels(&["SPEAKER_0"])));
    assert!(!has_unmapped_speaker(t, &labels(&["SPEAKER_0", "SPEAKER_1"])));
    assert!(!has_unmapped_speaker("[SPEAKER_2] no space\n", &Vec::new()));
}

#[test]
fn named_mapping_only_fills_unmapped_labels() {
    let mut map = vec![attr("SPEAKER_0", "Mat", Confidence::High)];
    extend_with_unmapped(
        &mut map,
        vec![
            attr("SPEAKER_0", "Other", Confidence::Low),
            attr("SPEAKER_1", "Alex", Confidence::Low),
        ],
    );
    assert_eq!(map.len(), 2);
    assert_eq!(map[0].name, "Mat");
    assert_eq!(map[1].name, "Alex");
    assert!(has_confirmed_name(&map));
    assert!(!has_confirmed_name(&vec![attr("SPEAKER_1", "Alex", Confidence::Low)]));
}

#[test]
fn confirm_speaker_names_the_first_matching_label() {
    let mut map = vec![
        attr("SPEAKER_0", "Alice", Confidence::Medium),
        attr("SPEAKER_1", "Bob", Confidence::Low),
    ];
    let r = confirm_speaker(&mut map, "SPEAKER_1", "Robert");
    assert_eq!(r, Ok("Confirmed: SPEAKER_1 = Robert".to_string()));
    assert_eq!(map[1].name, "Robert");
    assert_eq!(map[1].confidence, Confidence::High);
    assert_eq!(map[1].source, AttributionSource::Manual);
    assert_eq!(map[0].name, "Alice");
}

#[test]
fn confirm_speaker_refuses_unknown_label() {
    let mut map = vec![attr("SPEAKER_0", "Alice", Confidence::Medium)];
    let r = confirm_speaker(&mut map, "SPEAKER_9", "Zed");
    assert_eq!(r, Err("Speaker 'SPEAKER_9' not found in speaker_map".to_string()));
    assert_eq!(map[0].name, "Alice");
}
