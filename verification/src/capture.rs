//! Capture-side vocabulary: dictation progress events, audio sources,
//! pipeline stages, speaker-attribution labels, and naming the capture
//! backend and a dictation from what was captured.

use crate::daily_notes;
use crate::meetings::SpeakerAttributionView;
use crate::paths;
use crate::text;
use vstd::prelude::*;

verus! {

/// Progress of a dictation session, for the UI.
#[derive(Debug, Clone, PartialEq, Eq)]
pub enum DictationEvent {
    Listening,
    Accumulating,
    Processing,
    /// Partial transcription; the text updates as it grows.
    PartialText(String),
    /// Silence countdown: total timeout and remaining time, in ms.
    SilenceCountdown { total_ms: u64, remaining_ms: u64 },
    Success,
    Error,
    Cancelled,
    Yielded,
}

/// Which source produced a chunk of audio.
#[derive(Debug, Clone, Copy, PartialEq, Eq, Structural)]
pub enum SourceRole {
    /// The user's microphone.
    Voice,
    /// System or call audio (remote participants).
    Call,
    /// A single source.
    Default,
}

/// A stage of processing a recording.
#[derive(Debug, Clone, Copy, PartialEq, Eq, Structural)]
pub enum PipelineStage {
    Transcribing,
    Diarizing,
    Summarizing,
    Saving,
}

/// How sure a speaker attribution is.
#[derive(Debug, Clone, Copy, PartialEq, Eq, Structural)]
pub enum Confidence {
    High,
    Medium,
    Low,
}

/// Where a speaker attribution came from.
#[derive(Debug, Clone, Copy, PartialEq, Eq, Structural)]
pub enum AttributionSource {
    Deterministic,
    Llm,
    Enrollment,
    Manual,
}

/// The label of a confidence.
pub open spec fn confidence_name(c: Confidence) -> Seq<char> {
    match c {
        Confidence::High => "high"@,
        Confidence::Medium => "medium"@,
        Confidence::Low => "low"@,
    }
}

/// `confidence_name(confidence)`.
pub fn confidence_label(confidence: Confidence) -> (r: String)
    ensures
        r@ == confidence_name(confidence),
{
    match confidence {
        Confidence::High => String::from_str("high"),
        Confidence::Medium => String::from_str("medium"),
        Confidence::Low => String::from_str("low"),
    }
}

/// The label of an attribution source.
pub open spec fn source_name(s: AttributionSource) -> Seq<char> {
    match s {
        AttributionSource::Deterministic => "deterministic"@,
        AttributionSource::Llm => "llm"@,
        AttributionSource::Enrollment => "enrollment"@,
        AttributionSource::Manual => "manual"@,
    }
}

/// `source_name(source)`.
pub fn attribution_source_label(source: AttributionSource) -> (r: String)
    ensures
        r@ == source_name(source),
{
    match source {
        AttributionSource::Deterministic => String::from_str("deterministic"),
        AttributionSource::Llm => String::from_str("llm"),
        AttributionSource::Enrollment => String::from_str("enrollment"),
        AttributionSource::Manual => String::from_str("manual"),
    }
}

/// The capture backend that produced an audio file: native call capture
/// for files under a `native-captures` directory, else the given source,
/// else `cpal` for `.wav` files (any case), else unknown.
pub open spec fn capture_backend(audio_path: Seq<char>, source: Option<Seq<char>>) -> Seq<char> {
    if paths::path_parts(audio_path).contains("native-captures"@) {
        "native-call"@
    } else if source is Some {
        source->0
    } else if paths::extension(audio_path) matches Some(e) && text::eq_ignore_ascii_case(e, "wav"@) {
        "cpal"@
    } else {
        "unknown"@
    }
}

fn parts_contain(parts: &Vec<Vec<char>>, x: &[char]) -> (r: bool)
    ensures
        r == text::views(parts@).contains(x@),
{
    let ghost pv = text::views(parts@);
    let mut i: usize = 0;
    while i < parts.len()
        invariant
            i <= parts@.len(),
            pv == text::views(parts@),
            forall|k: int| 0 <= k < i ==> pv[k] != x@,
        decreases parts@.len() - i,
    {
        assert(pv[i as int] == parts@[i as int]@);
        if text::chars_eq(parts[i].as_slice(), x) {
            return true;
        }
        i = i + 1;
    }
    false
}

/// `capture_backend(audio_path, source)`.
pub fn infer_capture_backend(audio_path: &str, source: Option<&str>) -> (r: String)
    ensures
        r@ == capture_backend(audio_path@, daily_notes::opt_str(source)),
{
    let p = text::chars_of(audio_path);
    let parts = paths::parts_of(p.as_slice());
    let nc = text::lit_chars("native-captures");
    if parts_contain(&parts, nc.as_slice()) {
        return String::from_str("native-call");
    }
    match source {
        Some(s) => return s.to_owned(),
        None => {},
    }
    let wav = text::lit_chars("wav");
    let is_wav = match paths::file_name_of(p.as_slice()) {
        Some(name) => match paths::extension_chars(name.as_slice()) {
            Some(e) => text::eq_ignore_ascii_case_exec(e.as_slice(), wav.as_slice()),
            None => false,
        },
        None => false,
    };
    if is_wav {
        String::from_str("cpal")
    } else {
        String::from_str("unknown")
    }
}

/// The title of a dictation: its first `n` words joined by spaces, with
/// `"..."` when there were more.
pub open spec fn first_words_of(text: Seq<char>, n: nat) -> Seq<char> {
    let ws = text::words(text);
    let title = text::join(ws.take(if ws.len() < n { ws.len() as int } else { n as int }), seq![' ']);
    if ws.len() > n {
        title + seq!['.', '.', '.']
    } else {
        title
    }
}

/// `first_words_of(text, n)`.
pub fn first_words(text: &str, n: usize) -> (r: String)
    ensures
        r@ == first_words_of(text@, n as nat),
{
    let ws = text::split_whitespace(text::chars_of(text).as_slice());
    let ghost wv = text::views(ws@);
    let k = if ws.len() < n {
        ws.len()
    } else {
        n
    };
    let mut kept: Vec<Vec<char>> = Vec::new();
    let mut i: usize = 0;
    while i < k
        invariant
            i <= k <= ws@.len(),
            wv == text::views(ws@),
            text::views(kept@) == wv.take(i as int),
        decreases k - i,
    {
        let ghost before = text::views(kept@);
        kept.push(text::copy_range(ws[i].as_slice(), 0, ws[i].len()));
        assert(ws@[i as int]@.subrange(0, ws@[i as int]@.len() as int) =~= ws@[i as int]@);
        assert(text::views(kept@) =~= before.push(wv[i as int]));
        assert(wv.take(i + 1) =~= wv.take(i as int).push(wv[i as int]));
        i = i + 1;
    }
    let sp = vec![' '];
    assert(sp@ =~= seq![' ']);
    let mut title = text::join_chars(&kept, sp.as_slice());
    if ws.len() > n {
        title.push('.');
        title.push('.');
        title.push('.');
    }
    text::string_of(title.as_slice())
}

/// A speaker label attributed to a name.
#[derive(Debug, Clone)]
pub struct SpeakerAttribution {
    pub speaker_label: String,
    pub name: String,
    pub confidence: Confidence,
    pub source: AttributionSource,
}

/// A speaker map as text: label, name, confidence and source labels.
pub open spec fn speaker_rows(m: Seq<SpeakerAttribution>) -> Seq<(Seq<char>, Seq<char>, Seq<char>, Seq<char>)> {
    Seq::new(m.len(), |i: int| (m[i].speaker_label@, m[i].name@, confidence_name(m[i].confidence), source_name(m[i].source)))
}

/// The rows of a shown speaker map.
pub open spec fn view_rows(v: Seq<SpeakerAttributionView>) -> Seq<(Seq<char>, Seq<char>, Seq<char>, Seq<char>)> {
    Seq::new(v.len(), |i: int| (v[i].speaker_label@, v[i].name@, v[i].confidence@, v[i].source@))
}

/// The speaker map as shown: each attribution with its confidence and
/// source as labels.
pub fn debug_speaker_map(speaker_map: &Vec<SpeakerAttribution>) -> (r: Vec<SpeakerAttributionView>)
    ensures
        view_rows(r@) == speaker_rows(speaker_map@),
{
    let mut r: Vec<SpeakerAttributionView> = Vec::new();
    let mut i: usize = 0;
    while i < speaker_map.len()
        invariant
            i <= speaker_map@.len(),
            view_rows(r@) == speaker_rows(speaker_map@).take(i as int),
        decreases speaker_map@.len() - i,
    {
        let e = &speaker_map[i];
        let ghost before = view_rows(r@);
        r.push(SpeakerAttributionView {
            speaker_label: e.speaker_label.clone(),
            name: e.name.clone(),
            confidence: confidence_label(e.confidence),
            source: attribution_source_label(e.source),
        });
        assert(view_rows(r@) =~= before.push(speaker_rows(speaker_map@)[i as int]));
        assert(speaker_rows(speaker_map@).take(i + 1) =~= speaker_rows(speaker_map@).take(i as int).push(
            speaker_rows(speaker_map@)[i as int],
        ));
        i = i + 1;
    }
    assert(speaker_rows(speaker_map@).take(speaker_map@.len() as int) =~= speaker_rows(speaker_map@));
    r
}

} // verus!
