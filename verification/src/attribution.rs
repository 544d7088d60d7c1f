//! Speaker attribution decisions: mapping the user onto a single-stem
//! speaker label, the deterministic one-on-one mapping, and whether any
//! speaker is still unnamed.

use crate::capture::{self, AttributionSource, Confidence, SpeakerAttribution};
use crate::daily_notes;
use crate::entities;
use crate::text;
use vstd::prelude::*;

verus! {

/// How the user was attributed to a speaker label.
#[derive(Debug, Clone, Copy, PartialEq, Eq, Structural)]
pub enum SelfAttributionAppliedVia {
    VoiceStemMatch,
    SourceBackedStem,
    FallbackIdentityOnly,
}

/// Why the user was not attributed (or why a weaker path was taken).
#[derive(Debug, Clone, Copy, PartialEq, Eq, Structural)]
pub enum SelfAttributionSkippedReason {
    NoDiarizedSpeakers,
    DiarizationNotFromStems,
    AlreadyMapped,
    NoStableLabel,
    RemoteOnlyLabel,
    NoSelfProfile,
    NoStems,
    EmptyVoiceStem,
    VoiceStemDiarizationFailed,
    VoiceStemNoSelfMatch,
}

/// What is recorded about a self-attribution for diagnosis.
#[derive(Debug, Clone)]
pub struct SelfAttributionDebug {
    pub returned_some: bool,
    pub speaker_label: Option<String>,
    pub name: Option<String>,
    pub confidence: Option<String>,
    pub source: Option<String>,
    pub applied_via: Option<SelfAttributionAppliedVia>,
    pub skipped_reason: Option<SelfAttributionSkippedReason>,
    pub fallback_reason: Option<SelfAttributionSkippedReason>,
}

/// A self-attribution and its diagnosis.
#[derive(Debug, Clone)]
pub struct SelfAttributionOutcome {
    pub attribution: Option<SpeakerAttribution>,
    pub debug: SelfAttributionDebug,
}

/// An attribution as text and kinds: label, name, confidence, source.
pub type AttributionView = (Seq<char>, Seq<char>, Confidence, AttributionSource);

/// The view of an attribution.
pub open spec fn attribution_view(a: SpeakerAttribution) -> AttributionView {
    (a.speaker_label@, a.name@, a.confidence, a.source)
}

/// A self-attribution decision: the attribution made (if any), how, why
/// none was made, and what weaker path was taken instead.
pub type SelfDecision = (
    Option<AttributionView>,
    Option<SelfAttributionAppliedVia>,
    Option<SelfAttributionSkippedReason>,
    Option<SelfAttributionSkippedReason>,
);

/// Whether `o` records decision `d`, its diagnosis agreeing with the
/// attribution.
pub open spec fn outcome_is(o: SelfAttributionOutcome, d: SelfDecision) -> bool {
    let (attr, via, skipped, fallback) = d;
    &&& match (o.attribution, attr) {
        (Some(a), Some(v)) => attribution_view(a) == v,
        (None, None) => true,
        _ => false,
    }
    &&& o.debug.returned_some == attr is Some
    &&& text::opt_string(o.debug.speaker_label) == match attr {
        Some(v) => Some(v.0),
        None => None,
    }
    &&& text::opt_string(o.debug.name) == match attr {
        Some(v) => Some(v.1),
        None => None,
    }
    &&& text::opt_string(o.debug.confidence) == match attr {
        Some(v) => Some(capture::confidence_name(v.2)),
        None => None,
    }
    &&& text::opt_string(o.debug.source) == match attr {
        Some(v) => Some(capture::source_name(v.3)),
        None => None,
    }
    &&& o.debug.applied_via == via
    &&& o.debug.skipped_reason == skipped
    &&& o.debug.fallback_reason == fallback
}

impl SelfAttributionOutcome {
    /// The outcome of attributing `attribution`.
    pub fn applied(
        attribution: SpeakerAttribution,
        applied_via: SelfAttributionAppliedVia,
        fallback_reason: Option<SelfAttributionSkippedReason>,
    ) -> (r: Self)
        ensures
            outcome_is(r, (Some(attribution_view(attribution)), Some(applied_via), None, fallback_reason)),
    {
        let debug = SelfAttributionDebug {
            returned_some: true,
            speaker_label: Some(attribution.speaker_label.clone()),
            name: Some(attribution.name.clone()),
            confidence: Some(capture::confidence_label(attribution.confidence)),
            source: Some(capture::attribution_source_label(attribution.source)),
            applied_via: Some(applied_via),
            skipped_reason: None,
            fallback_reason,
        };
        SelfAttributionOutcome { debug, attribution: Some(attribution) }
    }

    /// The outcome of not attributing, for `reason`.
    pub fn skipped(reason: SelfAttributionSkippedReason) -> (r: Self)
        ensures
            outcome_is(r, (None, None, Some(reason), None)),
    {
        SelfAttributionOutcome {
            attribution: None,
            debug: SelfAttributionDebug {
                returned_some: false,
                speaker_label: None,
                name: None,
                confidence: None,
                source: None,
                applied_via: None,
                skipped_reason: Some(reason),
                fallback_reason: None,
            },
        }
    }
}

/// The label the user is mapped onto, whether it is backed by the voice
/// source, and the user's name.
pub type SelfTarget = (Seq<char>, bool, Seq<char>);

/// The label for the user, or why there is none: attribution needs
/// diarization from stems and nothing mapped yet; the label is
/// `SPEAKER_0` (the voice source) when the transcript has it, else a lone
/// `SPEAKER_1`, else `UNKNOWN` when an `[UNKNOWN ` line exists; and the
/// user must have a name.
pub open spec fn self_target(
    my_name: Option<Seq<char>>,
    from_stems: bool,
    transcript: Seq<char>,
    labels: Seq<Seq<char>>,
    mapped: Seq<Seq<char>>,
) -> Result<SelfTarget, SelfAttributionSkippedReason> {
    if !from_stems {
        Err(SelfAttributionSkippedReason::DiarizationNotFromStems)
    } else if mapped.len() > 0 {
        Err(SelfAttributionSkippedReason::AlreadyMapped)
    } else {
        let label = if labels.contains("SPEAKER_0"@) {
            Some(("SPEAKER_0"@, true))
        } else if labels.len() == 1 && labels[0] == "SPEAKER_1"@ {
            Some(("SPEAKER_1"@, false))
        } else if text::contains(transcript, "[UNKNOWN "@) {
            Some(("UNKNOWN"@, false))
        } else {
            None
        };
        match label {
            None => Err(SelfAttributionSkippedReason::NoStableLabel),
            Some((l, backed)) => match my_name {
                Some(n) => Ok((l, backed, n)),
                None => Err(SelfAttributionSkippedReason::NoSelfProfile),
            },
        }
    }
}

/// The decision once the target is known: a voice stem of at most a WAV
/// header is empty; with per-source stems, a source-backed label is the
/// user (high confidence from enrollment when the voice stem matched the
/// user's profile, else medium and deterministic; medium as a fallback when
/// the voice stem could not be diarized), while another label is remote
/// (`SPEAKER_1`) or unmatched, or diarization failed; without stems,
/// `SPEAKER_1` is remote and any other label is the user at medium
/// confidence, noting whether a profile existed. `stems` is none without
/// stems, else the voice stem's diarization: none when it failed, else
/// whether the user's profile matched.
pub open spec fn stem_decision(
    target: SelfTarget,
    voice_stem_len: Option<u64>,
    stems: Option<Option<bool>>,
    self_profile_exists: bool,
) -> SelfDecision {
    let (label, backed, name) = target;
    if voice_stem_len matches Some(len) && len <= 44 {
        (None, None, Some(SelfAttributionSkippedReason::EmptyVoiceStem), None)
    } else {
        match stems {
            Some(diarized) => if backed {
                match diarized {
                    Some(matched) => (
                        Some(
                            (
                                label,
                                name,
                                if matched {
                                    Confidence::High
                                } else {
                                    Confidence::Medium
                                },
                                if matched {
                                    AttributionSource::Enrollment
                                } else {
                                    AttributionSource::Deterministic
                                },
                            ),
                        ),
                        Some(
                            if matched {
                                SelfAttributionAppliedVia::VoiceStemMatch
                            } else {
                                SelfAttributionAppliedVia::SourceBackedStem
                            },
                        ),
                        None,
                        None,
                    ),
                    None => (
                        Some((label, name, Confidence::Medium, AttributionSource::Deterministic)),
                        Some(SelfAttributionAppliedVia::SourceBackedStem),
                        None,
                        Some(SelfAttributionSkippedReason::VoiceStemDiarizationFailed),
                    ),
                }
            } else {
                match diarized {
                    Some(_) => if label == "SPEAKER_1"@ {
                        (None, None, Some(SelfAttributionSkippedReason::RemoteOnlyLabel), None)
                    } else {
                        (None, None, Some(SelfAttributionSkippedReason::VoiceStemNoSelfMatch), None)
                    },
                    None => (None, None, Some(SelfAttributionSkippedReason::VoiceStemDiarizationFailed), None),
                }
            },
            None => if label == "SPEAKER_1"@ {
                (None, None, Some(SelfAttributionSkippedReason::RemoteOnlyLabel), None)
            } else {
                (
                    Some((label, name, Confidence::Medium, AttributionSource::Deterministic)),
                    Some(SelfAttributionAppliedVia::FallbackIdentityOnly),
                    None,
                    Some(
                        if self_profile_exists {
                            SelfAttributionSkippedReason::NoStems
                        } else {
                            SelfAttributionSkippedReason::NoSelfProfile
                        },
                    ),
                )
            },
        }
    }
}

/// The whole self-attribution decision.
pub open spec fn self_decision(
    my_name: Option<Seq<char>>,
    self_profile_exists: bool,
    from_stems: bool,
    transcript: Seq<char>,
    labels: Seq<Seq<char>>,
    mapped: Seq<Seq<char>>,
    voice_stem_len: Option<u64>,
    stems: Option<Option<bool>>,
) -> SelfDecision {
    match self_target(my_name, from_stems, transcript, labels, mapped) {
        Err(reason) => (None, None, Some(reason), None),
        Ok(target) => stem_decision(target, voice_stem_len, stems, self_profile_exists),
    }
}

/// The user's target label, or the outcome that ends attribution early;
/// see `self_target`. The target is given as (label, voice-backed, name).
pub fn self_attribution_target(
    my_name: Option<&str>,
    diarization_from_stems: bool,
    transcript: &str,
    transcript_labels: &Vec<String>,
    already_mapped_labels: &Vec<String>,
) -> (r: Result<(String, bool, String), SelfAttributionOutcome>)
    ensures
        match self_target(
            daily_notes::opt_str(my_name),
            diarization_from_stems,
            transcript@,
            text::string_views(transcript_labels@),
            text::string_views(already_mapped_labels@),
        ) {
            Ok(t) => r matches Ok(x) && (x.0@, x.1, x.2@) == t,
            Err(reason) => r matches Err(o) && outcome_is(o, (None, None, Some(reason), None)),
        },
{
    if !diarization_from_stems {
        return Err(SelfAttributionOutcome::skipped(SelfAttributionSkippedReason::DiarizationNotFromStems));
    }
    if already_mapped_labels.len() > 0 {
        return Err(SelfAttributionOutcome::skipped(SelfAttributionSkippedReason::AlreadyMapped));
    }
    let (label, backed) = if contains_string(transcript_labels, "SPEAKER_0") {
        (String::from_str("SPEAKER_0"), true)
    } else if transcript_labels.len() == 1 && text::eq_lit(
        text::chars_of(transcript_labels[0].as_str()).as_slice(),
        "SPEAKER_1",
    ) {
        assert(text::string_views(transcript_labels@)[0] == transcript_labels@[0]@);
        (String::from_str("SPEAKER_1"), false)
    } else if text::find_chars(
        text::chars_of(transcript).as_slice(),
        text::lit_chars("[UNKNOWN ").as_slice(),
        0,
    ).is_some() {
        proof {
            if transcript_labels@.len() == 1 {
                assert(text::string_views(transcript_labels@)[0] == transcript_labels@[0]@);
            }
        }
        (String::from_str("UNKNOWN"), false)
    } else {
        proof {
            if transcript_labels@.len() == 1 {
                assert(text::string_views(transcript_labels@)[0] == transcript_labels@[0]@);
            }
        }
        return Err(SelfAttributionOutcome::skipped(SelfAttributionSkippedReason::NoStableLabel));
    };
    match my_name {
        Some(n) => Ok((label, backed, n.to_owned())),
        None => Err(SelfAttributionOutcome::skipped(SelfAttributionSkippedReason::NoSelfProfile)),
    }
}

/// The outcome once the target (label, voice-backed, name) is known; see
/// `stem_decision`.
pub fn self_attribution_from_stems(
    target: (String, bool, String),
    voice_stem_len: Option<u64>,
    stems: Option<Option<bool>>,
    self_profile_exists: bool,
) -> (r: SelfAttributionOutcome)
    ensures
        outcome_is(r, stem_decision((target.0@, target.1, target.2@), voice_stem_len, stems, self_profile_exists)),
{
    let (label, backed, name) = target;
    match voice_stem_len {
        Some(len) => {
            if len <= 44 {
                return SelfAttributionOutcome::skipped(SelfAttributionSkippedReason::EmptyVoiceStem);
            }
        },
        None => {},
    }
    let is_remote = text::eq_lit(text::chars_of(label.as_str()).as_slice(), "SPEAKER_1");
    match stems {
        Some(diarized) => {
            if backed {
                match diarized {
                    Some(matched) => {
                        let attribution = SpeakerAttribution {
                            speaker_label: label,
                            name,
                            confidence: if matched {
                                Confidence::High
                            } else {
                                Confidence::Medium
                            },
                            source: if matched {
                                AttributionSource::Enrollment
                            } else {
                                AttributionSource::Deterministic
                            },
                        };
                        let via = if matched {
                            SelfAttributionAppliedVia::VoiceStemMatch
                        } else {
                            SelfAttributionAppliedVia::SourceBackedStem
                        };
                        SelfAttributionOutcome::applied(attribution, via, None)
                    },
                    None => SelfAttributionOutcome::applied(
                        SpeakerAttribution {
                            speaker_label: label,
                            name,
                            confidence: Confidence::Medium,
                            source: AttributionSource::Deterministic,
                        },
                        SelfAttributionAppliedVia::SourceBackedStem,
                        Some(SelfAttributionSkippedReason::VoiceStemDiarizationFailed),
                    ),
                }
            } else {
                match diarized {
                    Some(_) => {
                        if is_remote {
                            SelfAttributionOutcome::skipped(SelfAttributionSkippedReason::RemoteOnlyLabel)
                        } else {
                            SelfAttributionOutcome::skipped(SelfAttributionSkippedReason::VoiceStemNoSelfMatch)
                        }
                    },
                    None => SelfAttributionOutcome::skipped(
                        SelfAttributionSkippedReason::VoiceStemDiarizationFailed,
                    ),
                }
            }
        },
        None => {
            if is_remote {
                SelfAttributionOutcome::skipped(SelfAttributionSkippedReason::RemoteOnlyLabel)
            } else {
                SelfAttributionOutcome::applied(
                    SpeakerAttribution {
                        speaker_label: label,
                        name,
                        confidence: Confidence::Medium,
                        source: AttributionSource::Deterministic,
                    },
                    SelfAttributionAppliedVia::FallbackIdentityOnly,
                    Some(
                        if self_profile_exists {
                            SelfAttributionSkippedReason::NoStems
                        } else {
                            SelfAttributionSkippedReason::NoSelfProfile
                        },
                    ),
                )
            }
        },
    }
}

/// Maps the user onto a single-stem speaker label; see `self_decision`.
/// `voice_stem_len` is the size of the voice stem beside the audio when it
/// could be read; `stems` is none when no per-source stems exist, else the
/// voice stem's diarization: none when it failed, else whether the user's
/// voice profile matched.
pub fn single_stem_speaker_self_attribution(
    my_name: Option<&str>,
    self_profile_exists: bool,
    diarization_from_stems: bool,
    transcript: &str,
    transcript_labels: &Vec<String>,
    already_mapped_labels: &Vec<String>,
    voice_stem_len: Option<u64>,
    stems: Option<Option<bool>>,
) -> (r: SelfAttributionOutcome)
    ensures
        outcome_is(
            r,
            self_decision(
                daily_notes::opt_str(my_name),
                self_profile_exists,
                diarization_from_stems,
                transcript@,
                text::string_views(transcript_labels@),
                text::string_views(already_mapped_labels@),
                voice_stem_len,
                stems,
            ),
        ),
{
    match self_attribution_target(
        my_name,
        diarization_from_stems,
        transcript,
        transcript_labels,
        already_mapped_labels,
    ) {
        Err(outcome) => outcome,
        Ok(target) => self_attribution_from_stems(target, voice_stem_len, stems, self_profile_exists),
    }
}

/// The first attendee whose slug differs from `my_slug`.
pub open spec fn other_attendee(attendees: Seq<Seq<char>>, my_slug: Seq<char>) -> Option<Seq<char>>
    decreases attendees.len(),
{
    if attendees.len() == 0 {
        None
    } else if entities::slugified(attendees[0]) != my_slug {
        Some(attendees[0])
    } else {
        other_attendee(attendees.drop_first(), my_slug)
    }
}

/// The deterministic one-on-one mapping: with exactly two attendees, two
/// diarized speakers, two transcript labels and no voice match, the first
/// label is the user and the second the first attendee who is not the user
/// (by slug), both at medium confidence.
pub open spec fn one_on_one_pair(
    my_name: Option<Seq<char>>,
    attendees: Seq<Seq<char>>,
    num_speakers: nat,
    labels: Seq<Seq<char>>,
    voice_matched: nat,
) -> Option<(AttributionView, AttributionView)> {
    if attendees.len() > 0 && num_speakers == attendees.len() && num_speakers == 2 && labels.len() == 2
        && voice_matched == 0 {
        match my_name {
            Some(me) => match other_attendee(attendees, entities::slugified(me)) {
                Some(other) => Some(
                    (
                        (labels[0], me, Confidence::Medium, AttributionSource::Deterministic),
                        (labels[1], other, Confidence::Medium, AttributionSource::Deterministic),
                    ),
                ),
                None => None,
            },
            None => None,
        }
    } else {
        None
    }
}

/// The views of a list of attributions.
pub open spec fn attribution_views(v: Seq<SpeakerAttribution>) -> Seq<AttributionView> {
    v.map_values(|a: SpeakerAttribution| attribution_view(a))
}

/// The deterministic one-on-one attributions (none, or the two of
/// `one_on_one_pair`); `voice_matched` is how many speakers the voice
/// profiles already matched.
pub fn deterministic_one_on_one(
    my_name: Option<&str>,
    attendees: &Vec<String>,
    diarization_num_speakers: usize,
    transcript_labels: &Vec<String>,
    voice_matched: usize,
) -> (r: Vec<SpeakerAttribution>)
    ensures
        match one_on_one_pair(
            daily_notes::opt_str(my_name),
            text::string_views(attendees@),
            diarization_num_speakers as nat,
            text::string_views(transcript_labels@),
            voice_matched as nat,
        ) {
            Some((a, b)) => attribution_views(r@) == seq![a, b],
            None => r@.len() == 0,
        },
{
    let mut r: Vec<SpeakerAttribution> = Vec::new();
    if attendees.len() == 0 || diarization_num_speakers != attendees.len() || diarization_num_speakers
        != 2 || transcript_labels.len() != 2 || voice_matched != 0 {
        return r;
    }
    let me = match my_name {
        Some(n) => n,
        None => return r,
    };
    let ghost av = text::string_views(attendees@);
    let ghost lv = text::string_views(transcript_labels@);
    let my_slug = entities::slugify(me);
    let mut i: usize = 0;
    assert(av.skip(0) =~= av);
    while i < attendees.len()
        invariant
            i <= attendees@.len(),
            r@.len() == 0,
            transcript_labels@.len() == 2,
            attendees@.len() == 2,
            diarization_num_speakers == 2,
            voice_matched == 0,
            my_name == Some(me),
            av == text::string_views(attendees@),
            lv == text::string_views(transcript_labels@),
            my_slug@ == entities::slugified(me@),
            other_attendee(av, my_slug@) == other_attendee(av.skip(i as int), my_slug@),
        decreases attendees@.len() - i,
    {
        let slug = entities::slugify(attendees[i].as_str());
        assert(av.skip(i as int)[0] == attendees@[i as int]@);
        assert(av.skip(i as int).drop_first() =~= av.skip(i + 1));
        if text::chars_eq(text::chars_of(slug.as_str()).as_slice(), text::chars_of(my_slug.as_str()).as_slice()) {
            i = i + 1;
        } else {
            assert(av[i as int] == attendees@[i as int]@);
            assert(av.skip(i as int).len() > 0);
            assert(other_attendee(av.skip(i as int), my_slug@) == Some(av[i as int]));
            assert(lv[0] == transcript_labels@[0]@);
            assert(lv[1] == transcript_labels@[1]@);
            r.push(SpeakerAttribution {
                speaker_label: transcript_labels[0].clone(),
                name: me.to_owned(),
                confidence: Confidence::Medium,
                source: AttributionSource::Deterministic,
            });
            r.push(SpeakerAttribution {
                speaker_label: transcript_labels[1].clone(),
                name: attendees[i].clone(),
                confidence: Confidence::Medium,
                source: AttributionSource::Deterministic,
            });
            assert(attribution_views(r@) =~= seq![
                (lv[0], me@, Confidence::Medium, AttributionSource::Deterministic),
                (lv[1], av[i as int], Confidence::Medium, AttributionSource::Deterministic),
            ]);
            return r;
        }
    }
    assert(av.skip(i as int).len() == 0);
    r
}

/// Whether a transcript line names a `SPEAKER_` label outside `mapped`:
/// it starts with `[`, and before the first `]` comes a label ended by a
/// space.
pub open spec fn line_has_unmapped(line: Seq<char>, mapped: Seq<Seq<char>>) -> bool {
    line.len() > 0 && line[0] == '[' && {
        let rest = line.skip(1);
        match text::find(rest, "]"@) {
            Some(b) => {
                let inside = rest.take(b as int);
                match text::find(inside, " "@) {
                    Some(sp) => {
                        let label = inside.take(sp as int);
                        text::has_prefix(label, "SPEAKER_"@) && !mapped.contains(label)
                    },
                    None => false,
                }
            },
            None => false,
        }
    }
}

/// Whether any transcript line has a speaker label not yet mapped.
pub open spec fn has_unmapped(transcript: Seq<char>, mapped: Seq<Seq<char>>) -> bool {
    exists|i: int| 0 <= i < text::lines(transcript).len() && line_has_unmapped(#[trigger] text::lines(transcript)[i], mapped)
}

fn line_unmapped(line: &[char], mapped: &Vec<Vec<char>>) -> (r: bool)
    ensures
        r == line_has_unmapped(line@, text::views(mapped@)),
{
    if line.len() == 0 || line[0] != '[' {
        return false;
    }
    let rest = text::copy_range(line, 1, line.len());
    assert(rest@ =~= line@.skip(1));
    proof {
        reveal_strlit("]");
        reveal_strlit(" ");
        reveal_strlit("SPEAKER_");
    }
    match text::find_chars(rest.as_slice(), text::lit_chars("]").as_slice(), 0) {
        Some(b) => {
            proof { text::lemma_find_from_bounds(rest@, "]"@, 0); }
            let inside = text::copy_range(rest.as_slice(), 0, b);
            assert(inside@ =~= rest@.take(b as int));
            match text::find_chars(inside.as_slice(), text::lit_chars(" ").as_slice(), 0) {
                Some(sp) => {
                    proof { text::lemma_find_from_bounds(inside@, " "@, 0); }
                    let label = text::copy_range(inside.as_slice(), 0, sp);
                    assert(label@ =~= inside@.take(sp as int));
                    text::starts_with_lit(label.as_slice(), "SPEAKER_") && !text::contains_seq(
                        mapped,
                        label.as_slice(),
                    )
                },
                None => false,
            }
        },
        None => false,
    }
}

/// Whether `transcript` has a speaker label outside `mapped_labels`; see
/// `has_unmapped`.
pub fn has_unmapped_speaker(transcript: &str, mapped_labels: &Vec<String>) -> (r: bool)
    ensures
        r == has_unmapped(transcript@, text::string_views(mapped_labels@)),
{
    let mut mapped: Vec<Vec<char>> = Vec::new();
    let mut k: usize = 0;
    while k < mapped_labels.len()
        invariant
            k <= mapped_labels@.len(),
            text::views(mapped@) == text::string_views(mapped_labels@).take(k as int),
        decreases mapped_labels@.len() - k,
    {
        let ghost before = text::views(mapped@);
        mapped.push(text::chars_of(mapped_labels[k].as_str()));
        assert(text::views(mapped@) =~= before.push(mapped_labels@[k as int]@));
        assert(text::string_views(mapped_labels@).take(k + 1) =~= text::string_views(mapped_labels@).take(
            k as int,
        ).push(mapped_labels@[k as int]@));
        k = k + 1;
    }
    assert(text::string_views(mapped_labels@).take(k as int) =~= text::string_views(mapped_labels@));
    let ls = text::lines_of(text::chars_of(transcript).as_slice());
    let ghost lv = text::lines(transcript@);
    let mut i: usize = 0;
    while i < ls.len()
        invariant
            i <= ls@.len(),
            text::views(ls@) == lv,
            lv == text::lines(transcript@),
            text::views(mapped@) == text::string_views(mapped_labels@),
            forall|j: int| 0 <= j < i ==> !line_has_unmapped(#[trigger] lv[j], text::views(mapped@)),
        decreases ls@.len() - i,
    {
        assert(lv[i as int] == ls@[i as int]@);
        if line_unmapped(ls[i].as_slice(), &mapped) {
            return true;
        }
        i = i + 1;
    }
    false
}

/// A copy of `a`.
pub fn copy_attribution(a: &SpeakerAttribution) -> (r: SpeakerAttribution)
    ensures
        attribution_view(r) == attribution_view(*a),
{
    SpeakerAttribution {
        speaker_label: a.speaker_label.clone(),
        name: a.name.clone(),
        confidence: a.confidence,
        source: a.source,
    }
}

/// The labels of attributions.
pub open spec fn labels_of(v: Seq<AttributionView>) -> Seq<Seq<char>> {
    v.map_values(|a: AttributionView| a.0)
}

fn labels_vec(v: &Vec<SpeakerAttribution>) -> (r: Vec<String>)
    ensures
        text::string_views(r@) == labels_of(attribution_views(v@)),
{
    let mut r: Vec<String> = Vec::new();
    let mut i: usize = 0;
    while i < v.len()
        invariant
            i <= v@.len(),
            text::string_views(r@) == labels_of(attribution_views(v@)).take(i as int),
        decreases v@.len() - i,
    {
        let ghost before = text::string_views(r@);
        r.push(v[i].speaker_label.clone());
        assert(text::string_views(r@) =~= before.push(v@[i as int].speaker_label@));
        assert(labels_of(attribution_views(v@)).take(i + 1) =~= labels_of(attribution_views(v@)).take(
            i as int,
        ).push(v@[i as int].speaker_label@));
        i = i + 1;
    }
    assert(labels_of(attribution_views(v@)).take(i as int) =~= labels_of(attribution_views(v@)));
    r
}

/// The speaker map of a recording and what decided it.
#[derive(Debug, Clone)]
pub struct MeetingSpeakerMap {
    pub speaker_map: Vec<SpeakerAttribution>,
    pub self_attribution: SelfAttributionOutcome,
    /// Whether a transcript label is still unnamed, so that a named
    /// mapping from the summarizer should be asked for.
    pub needs_named_mapping: bool,
}

/// The speaker map, the self-attribution decision and whether a label is
/// still unnamed: outside a meeting, or for a meeting without diarized
/// speakers, nothing is mapped; else the voice-profile matches come
/// first, then the one-on-one pair, then the user's own label.
pub open spec fn meeting_map(
    is_meeting: bool,
    num_speakers: nat,
    voice: Seq<AttributionView>,
    self_profile_exists: bool,
    my_name: Option<Seq<char>>,
    attendees: Seq<Seq<char>>,
    labels: Seq<Seq<char>>,
    from_stems: bool,
    transcript: Seq<char>,
    voice_stem_len: Option<u64>,
    stems: Option<Option<bool>>,
) -> (Seq<AttributionView>, SelfDecision, bool) {
    if is_meeting && num_speakers == 0 {
        (seq![], (None, None, Some(SelfAttributionSkippedReason::NoDiarizedSpeakers), None), false)
    } else if !is_meeting {
        (seq![], (None, None, Some(SelfAttributionSkippedReason::NoStableLabel), None), false)
    } else {
        let pair = match one_on_one_pair(my_name, attendees, num_speakers, labels, voice.len()) {
            Some((a, b)) => seq![a, b],
            None => seq![],
        };
        let first = voice + pair;
        let d = self_decision(
            my_name,
            self_profile_exists,
            from_stems,
            transcript,
            labels,
            labels_of(first),
            voice_stem_len,
            stems,
        );
        let all = match d.0 {
            Some(a) => first.push(a),
            None => first,
        };
        (all, d, has_unmapped(transcript, labels_of(all)))
    }
}

/// Maps the speakers of a recording; see `meeting_map`. `voice_attributions`
/// are the voice-profile matches and `transcript_labels` the speaker labels
/// of the transcript in order of first appearance.
pub fn meeting_speaker_map(
    is_meeting: bool,
    diarization_num_speakers: usize,
    voice_attributions: &Vec<SpeakerAttribution>,
    self_profile_exists: bool,
    my_name: Option<&str>,
    attendees: &Vec<String>,
    transcript_labels: &Vec<String>,
    diarization_from_stems: bool,
    transcript: &str,
    voice_stem_len: Option<u64>,
    stems: Option<Option<bool>>,
) -> (r: MeetingSpeakerMap)
    ensures
        ({
            let (m, d, needs) = meeting_map(
                is_meeting,
                diarization_num_speakers as nat,
                attribution_views(voice_attributions@),
                self_profile_exists,
                daily_notes::opt_str(my_name),
                text::string_views(attendees@),
                text::string_views(transcript_labels@),
                diarization_from_stems,
                transcript@,
                voice_stem_len,
                stems,
            );
            &&& attribution_views(r.speaker_map@) == m
            &&& outcome_is(r.self_attribution, d)
            &&& r.needs_named_mapping == needs
        }),
{
    if is_meeting && diarization_num_speakers == 0 {
        return MeetingSpeakerMap {
            speaker_map: Vec::new(),
            self_attribution: SelfAttributionOutcome::skipped(SelfAttributionSkippedReason::NoDiarizedSpeakers),
            needs_named_mapping: false,
        };
    }
    if !is_meeting {
        return MeetingSpeakerMap {
            speaker_map: Vec::new(),
            self_attribution: SelfAttributionOutcome::skipped(SelfAttributionSkippedReason::NoStableLabel),
            needs_named_mapping: false,
        };
    }
    let mut map: Vec<SpeakerAttribution> = Vec::new();
    let mut i: usize = 0;
    while i < voice_attributions.len()
        invariant
            i <= voice_attributions@.len(),
            attribution_views(map@) == attribution_views(voice_attributions@).take(i as int),
        decreases voice_attributions@.len() - i,
    {
        let ghost before = attribution_views(map@);
        map.push(copy_attribution(&voice_attributions[i]));
        assert(attribution_views(map@) =~= before.push(attribution_view(voice_attributions@[i as int])));
        assert(attribution_views(voice_attributions@).take(i + 1) =~= attribution_views(
            voice_attributions@,
        ).take(i as int).push(attribution_view(voice_attributions@[i as int])));
        i = i + 1;
    }
    assert(attribution_views(voice_attributions@).take(i as int) =~= attribution_views(voice_attributions@));
    let pair = deterministic_one_on_one(
        my_name,
        attendees,
        diarization_num_speakers,
        transcript_labels,
        voice_attributions.len(),
    );
    let ghost first = attribution_views(map@);
    let mut j: usize = 0;
    while j < pair.len()
        invariant
            j <= pair@.len(),
            attribution_views(map@) == first + attribution_views(pair@).take(j as int),
        decreases pair@.len() - j,
    {
        let ghost before = attribution_views(map@);
        map.push(copy_attribution(&pair[j]));
        assert(attribution_views(map@) =~= before.push(attribution_view(pair@[j as int])));
        assert(attribution_views(pair@).take(j + 1) =~= attribution_views(pair@).take(j as int).push(
            attribution_view(pair@[j as int]),
        ));
        assert(first + attribution_views(pair@).take(j + 1) =~= (first + attribution_views(pair@).take(
            j as int,
        )).push(attribution_view(pair@[j as int])));
        j = j + 1;
    }
    assert(attribution_views(pair@).take(j as int) =~= attribution_views(pair@));
    proof {
        match one_on_one_pair(
            daily_notes::opt_str(my_name),
            text::string_views(attendees@),
            diarization_num_speakers as nat,
            text::string_views(transcript_labels@),
            voice_attributions@.len() as nat,
        ) {
            Some((a, b)) => {},
            None => {
                assert(attribution_views(pair@) =~= seq![]);
            },
        }
    }
    let mapped = labels_vec(&map);
    let outcome = single_stem_speaker_self_attribution(
        my_name,
        self_profile_exists,
        diarization_from_stems,
        transcript,
        transcript_labels,
        &mapped,
        voice_stem_len,
        stems,
    );
    match &outcome.attribution {
        Some(a) => {
            let ghost before = attribution_views(map@);
            map.push(copy_attribution(a));
            assert(attribution_views(map@) =~= before.push(attribution_view(*a)));
        },
        None => {},
    }
    let mapped_all = labels_vec(&map);
    let needs = has_unmapped_speaker(transcript, &mapped_all);
    MeetingSpeakerMap { speaker_map: map, self_attribution: outcome, needs_named_mapping: needs }
}

/// `map` followed by the candidates whose label `map` does not already
/// have (judged against `map` as it was before).
pub open spec fn with_unmapped(map: Seq<AttributionView>, candidates: Seq<AttributionView>) -> Seq<AttributionView> {
    map + candidates.filter(|c: AttributionView| !labels_of(map).contains(c.0))
}

/// Adds the candidates (from a named mapping) whose labels are not yet
/// mapped; see `with_unmapped`.
pub fn extend_with_unmapped(speaker_map: &mut Vec<SpeakerAttribution>, candidates: Vec<SpeakerAttribution>)
    ensures
        attribution_views(final(speaker_map)@) == with_unmapped(
            attribution_views(old(speaker_map)@),
            attribution_views(candidates@),
        ),
{
    let mapped = labels_vec(speaker_map);
    let ghost m0 = attribution_views(speaker_map@);
    let ghost cv = attribution_views(candidates@);
    let ghost keep = |c: AttributionView| !labels_of(m0).contains(c.0);
    let mut i: usize = 0;
    while i < candidates.len()
        invariant
            i <= candidates@.len(),
            cv == attribution_views(candidates@),
            text::string_views(mapped@) == labels_of(m0),
            keep == (|c: AttributionView| !labels_of(m0).contains(c.0)),
            attribution_views(speaker_map@) == m0 + cv.take(i as int).filter(keep),
        decreases candidates@.len() - i,
    {
        let c = &candidates[i];
        let found = contains_string(&mapped, c.speaker_label.as_str());
        assert(cv.take(i + 1) =~= cv.take(i as int).push(cv[i as int]));
        reveal(Seq::filter);
        assert(cv.take(i + 1).filter(keep) == if keep(cv[i as int]) {
            cv.take(i as int).filter(keep).push(cv[i as int])
        } else {
            cv.take(i as int).filter(keep)
        }) by {
            assert(cv.take(i + 1).drop_last() =~= cv.take(i as int));
        }
        if !found {
            let ghost before = attribution_views(speaker_map@);
            speaker_map.push(copy_attribution(c));
            assert(attribution_views(speaker_map@) =~= before.push(cv[i as int]));
        }
        i = i + 1;
    }
    assert(cv.take(i as int) =~= cv);
}

fn contains_string(v: &Vec<String>, x: &str) -> (r: bool)
    ensures
        r == text::string_views(v@).contains(x@),
{
    let xs = text::chars_of(x);
    let mut i: usize = 0;
    while i < v.len()
        invariant
            i <= v@.len(),
            xs@ == x@,
            forall|k: int| 0 <= k < i ==> text::string_views(v@)[k] != x@,
        decreases v@.len() - i,
    {
        assert(text::string_views(v@)[i as int] == v@[i as int]@);
        if text::chars_eq(text::chars_of(v[i].as_str()).as_slice(), xs.as_slice()) {
            return true;
        }
        i = i + 1;
    }
    false
}

/// Whether any attribution is confirmed (high confidence), so that the
/// transcript's labels are replaced by names.
pub fn has_confirmed_name(speaker_map: &Vec<SpeakerAttribution>) -> (r: bool)
    ensures
        r == exists|i: int| 0 <= i < speaker_map@.len() && (#[trigger] speaker_map@[i]).confidence == Confidence::High,
{
    let mut i: usize = 0;
    while i < speaker_map.len()
        invariant
            i <= speaker_map@.len(),
            forall|k: int| 0 <= k < i ==> (#[trigger] speaker_map@[k]).confidence != Confidence::High,
        decreases speaker_map@.len() - i,
    {
        if speaker_map[i].confidence == Confidence::High {
            return true;
        }
        i = i + 1;
    }
    false
}

/// Whether the user has a voice profile: a profile's person slug is the
/// slug of the user's name.
pub fn has_self_profile(my_name: Option<&str>, profile_slugs: &Vec<String>) -> (r: bool)
    ensures
        r == match my_name {
            Some(n) => text::string_views(profile_slugs@).contains(entities::slugified(n@)),
            None => false,
        },
{
    match my_name {
        Some(n) => contains_string(profile_slugs, entities::slugify(n).as_str()),
        None => false,
    }
}

/// The user confirms that `label` is `name`: the first attribution for
/// `label` takes that name with high confidence and a manual source, and
/// the confirmation message is returned; with no attribution for `label`
/// the map is unchanged and an error names the label.
pub fn confirm_speaker(map: &mut Vec<SpeakerAttribution>, label: &str, name: &str) -> (r: Result<String, String>)
    ensures
        final(map)@.len() == old(map)@.len(),
        match r {
            Ok(m) => m@ == "Confirmed: "@ + label@ + " = "@ + name@ && exists|i: int|
                0 <= i < old(map)@.len() && old(map)@[i].speaker_label@ == label@ && (forall|j: int|
                    0 <= j < i ==> old(map)@[j].speaker_label@ != label@) && final(map)@[i].speaker_label
                    == old(map)@[i].speaker_label && final(map)@[i].name@ == name@ && final(map)@[i].confidence
                    == Confidence::High && final(map)@[i].source == AttributionSource::Manual && (forall|j: int|
                    0 <= j < old(map)@.len() && j != i ==> final(map)@[j] == old(map)@[j]),
            Err(m) => m@ == "Speaker '"@ + label@ + "' not found in speaker_map"@ && final(map)@
                == old(map)@ && forall|i: int| 0 <= i < old(map)@.len() ==> old(map)@[i].speaker_label@ != label@,
        },
{
    let wanted = text::chars_of(label);
    let mut i: usize = 0;
    while i < map.len()
        invariant
            i <= map@.len(),
            map@ == old(map)@,
            wanted@ == label@,
            forall|j: int| 0 <= j < i ==> map@[j].speaker_label@ != label@,
        decreases map@.len() - i,
    {
        if text::chars_eq(text::chars_of(map[i].speaker_label.as_str()).as_slice(), wanted.as_slice()) {
            let updated = SpeakerAttribution {
                speaker_label: map[i].speaker_label.clone(),
                name: String::from_str(name),
                confidence: Confidence::High,
                source: AttributionSource::Manual,
            };
            map.set(i, updated);
            let mut msg = String::from_str("Confirmed: ");
            msg.append(label);
            msg.append(" = ");
            msg.append(name);
            return Ok(msg);
        }
        i = i + 1;
    }
    let mut msg = String::from_str("Speaker '");
    msg.append(label);
    msg.append("' not found in speaker_map");
    Err(msg)
}

} // verus!
