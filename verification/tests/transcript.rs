use minutes_core::transcript::{
    count_transcript_words, extract_effective_transcript_speaker_labels, merge_source_transcripts,
};

#[test]
fn merge_source_transcripts_preserves_both_sources() {
    let merged = merge_source_transcripts(
        "[0:00] hello from mic\n[0:02] another local line\n",
        "[0:00] [Bell]\n[0:01] hello from remote\n",
    );

    assert_eq!(
        merged,
        "[SPEAKER_0 0:00] hello from mic\n[SPEAKER_1 0:00] [Bell]\n[SPEAKER_1 0:01] hello from remote\n[SPEAKER_0 0:02] another local line"
    );
}

#[test]
fn count_transcript_words_ignores_bracket_prefixes() {
    let transcript = "\
[SPEAKER_0 0:00] hello from mic\n\
[SPEAKER_1 0:01] [Bell]\n\
[0:02] plain unlabeled words\n";

    assert_eq!(count_transcript_words(transcript), 7);
}

#[test]
fn extract_effective_transcript_speaker_labels_keeps_unknowns() {
    let labels = extract_effective_transcript_speaker_labels(
        "[UNKNOWN 0:00] hello\n[SPEAKER_0 0:02] hi\n[Mat 0:05] done\n",
    );
    assert_eq!(labels, vec!["UNKNOWN", "SPEAKER_0", "Mat"]);
}

#[test]
fn merge_falls_back_to_plain_text_without_timestamps() {
    assert_eq!(merge_source_transcripts("  hello  ", ""), "hello");
    assert_eq!(merge_source_transcripts("a", "b"), "a\nb");
    assert_eq!(merge_source_transcripts("", "   "), "");
}

#[test]
fn merge_orders_hour_timestamps_and_skips_bad_lines() {
    let merged = merge_source_transcripts(
        "[1:00:00] late\n[bad] skipped\n[0:05]   \n",
        "[59:59] early\n",
    );
    assert_eq!(merged, "[SPEAKER_1 59:59] early\n[SPEAKER_0 1:00:00] late");
}

#[test]
fn merge_keeps_input_order_for_equal_keys() {
    let merged = merge_source_transcripts("[0:01] same\n[00:01] same\n", "");
    assert_eq!(merged, "[SPEAKER_0 0:01] same\n[SPEAKER_0 00:01] same");
}

#[test]
fn speaker_labels_are_deduplicated() {
    let labels =
        extract_effective_transcript_speaker_labels("[A 0:00] x\n[B 0:01] y\n[A 0:02] z\n[0:03] w");
    assert_eq!(labels, vec!["A", "B"]);
}
