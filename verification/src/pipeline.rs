//! Decisions of the processing pipeline around transcription: the status of
//! an artifact, which steps run, what the summarizer reads, how attendees
//! merge, the title and source of a recording, its estimated duration, and
//! whether an audio file lies in an allowed directory.

use crate::capture::PipelineStage;
use crate::errors::TranscribeError;
use crate::capture::SpeakerAttribution;
use crate::entities::{self, EntityLinks};
use crate::intents::{ActionItem, Decision, Intent};
use crate::markdown::{ContentType, WriteResult};
use crate::numbers;
use crate::paths;
use crate::text;
use crate::title;
use vstd::prelude::*;

verus! {

/// The status of a written artifact.
#[derive(Debug, Clone, Copy, PartialEq, Eq, Structural)]
pub enum OutputStatus {
    Complete,
    NoSpeech,
    TranscriptOnly,
}

/// The status of a processed recording: no speech below the word minimum,
/// else complete when a summary is made, else transcript only.
pub open spec fn status_for(word_count: nat, min_words: nat, summarizing: bool) -> OutputStatus {
    if word_count < min_words {
        OutputStatus::NoSpeech
    } else if summarizing {
        OutputStatus::Complete
    } else {
        OutputStatus::TranscriptOnly
    }
}

/// The status of a recording; see `status_for`. `summary_engine` is the
/// configured summarization engine (`"none"` turns summaries off).
pub fn recording_status(word_count: usize, min_words: usize, summary_engine: &str) -> (r: OutputStatus)
    ensures
        r == status_for(word_count as nat, min_words as nat, summary_engine@ != "none"@),
{
    let summarizing = !engine_is_none(summary_engine);
    if word_count < min_words {
        OutputStatus::NoSpeech
    } else if summarizing {
        OutputStatus::Complete
    } else {
        OutputStatus::TranscriptOnly
    }
}

/// The status of a transcript written before enrichment: no speech below
/// the word minimum, else transcript only.
pub fn transcript_status(word_count: usize, min_words: usize) -> (r: OutputStatus)
    ensures
        r == status_for(word_count as nat, min_words as nat, false),
{
    if word_count < min_words {
        OutputStatus::NoSpeech
    } else {
        OutputStatus::TranscriptOnly
    }
}

/// The status after enrichment: complete when a summary is made, else
/// transcript only.
pub fn enriched_status(summary_engine: &str) -> (r: OutputStatus)
    ensures
        r == (if summary_engine@ != "none"@ {
            OutputStatus::Complete
        } else {
            OutputStatus::TranscriptOnly
        }),
{
    if engine_is_none(summary_engine) {
        OutputStatus::TranscriptOnly
    } else {
        OutputStatus::Complete
    }
}

fn engine_is_none(engine: &str) -> (r: bool)
    ensures
        r == (engine@ == "none"@),
{
    text::eq_lit(text::chars_of(engine).as_slice(), "none")
}

/// Whether speakers are diarized: for meetings, unless the engine is
/// `"none"`.
pub fn needs_diarization(diarization_engine: &str, content_type: ContentType) -> (r: bool)
    ensures
        r == (diarization_engine@ != "none"@ && content_type == ContentType::Meeting),
{
    !engine_is_none(diarization_engine) && content_type == ContentType::Meeting
}

/// What the summarizer reads: the transcript, preceded by the user's notes
/// under a heading when there are any.
pub open spec fn summarizer_text(transcript: Seq<char>, notes: Option<Seq<char>>) -> Seq<char> {
    match notes {
        Some(n) => "USER NOTES (these moments were marked as important — weight them heavily):\n"@ + n
            + "\n\nTRANSCRIPT:\n"@ + transcript,
        None => transcript,
    }
}

/// The summarizer's input; see `summarizer_text`.
pub fn summarizer_input(transcript: &str, notes: Option<&str>) -> (r: String)
    ensures
        r@ == summarizer_text(transcript@, title::opt_view(notes)),
{
    match notes {
        Some(n) => numbers::concat4(
            "USER NOTES (these moments were marked as important — weight them heavily):\n",
            n,
            "\n\nTRANSCRIPT:\n",
            transcript,
        ),
        None => transcript.to_owned(),
    }
}

/// Merging names into a list: each name whose lowercase form is not empty
/// and not yet seen is added, and its lowercase form becomes seen. Gives
/// the names added and the lowercase forms seen.
pub open spec fn merge_names(seen: Seq<Seq<char>>, names: Seq<Seq<char>>) -> (Seq<Seq<char>>, Seq<Seq<char>>)
    decreases names.len(),
{
    if names.len() == 0 {
        (seq![], seen)
    } else {
        let (added, seen_before) = merge_names(seen, names.drop_last());
        let lower = text::lowercase(names.last());
        if lower.len() > 0 && !seen_before.contains(lower) {
            (added.push(names.last()), seen_before.push(lower))
        } else {
            (added, seen_before)
        }
    }
}

/// The lowercase forms of names.
pub open spec fn lowercased(names: Seq<Seq<char>>) -> Seq<Seq<char>> {
    names.map_values(|n: Seq<char>| text::lowercase(n))
}

/// The attendees: those already listed, then each further name whose
/// lowercase form is neither empty nor already present (compared without
/// case).
pub open spec fn merged_attendees(existing: Seq<Seq<char>>, more: Seq<Seq<char>>) -> Seq<Seq<char>> {
    existing + merge_names(lowercased(existing), more).0
}

/// Merges attendee names without case-insensitive repeats; see
/// `merged_attendees`.
pub fn merge_attendees(existing: &Vec<String>, more: &Vec<String>) -> (r: Vec<String>)
    ensures
        text::string_views(r@) == merged_attendees(text::string_views(existing@), text::string_views(more@)),
{
    let ghost ev = text::string_views(existing@);
    let ghost mv = text::string_views(more@);
    let mut r: Vec<String> = Vec::new();
    let mut seen: Vec<Vec<char>> = Vec::new();
    let mut i: usize = 0;
    while i < existing.len()
        invariant
            i <= existing@.len(),
            ev == text::string_views(existing@),
            text::string_views(r@) == ev.take(i as int),
            text::views(seen@) == lowercased(ev.take(i as int)),
        decreases existing@.len() - i,
    {
        let lower = text::to_lowercase_chars(text::chars_of(existing[i].as_str()).as_slice());
        let ghost rb = text::string_views(r@);
        let ghost sb = text::views(seen@);
        r.push(existing[i].clone());
        seen.push(lower);
        assert(ev.take(i + 1) =~= ev.take(i as int).push(ev[i as int]));
        assert(text::string_views(r@) =~= rb.push(ev[i as int]));
        assert(text::views(seen@) =~= sb.push(text::lowercase(ev[i as int])));
        assert(lowercased(ev.take(i + 1)) =~= lowercased(ev.take(i as int)).push(text::lowercase(ev[i as int])));
        i = i + 1;
    }
    assert(ev.take(i as int) =~= ev);
    let ghost seen0 = lowercased(ev);
    let mut j: usize = 0;
    assert(mv.take(0) =~= Seq::<Seq<char>>::empty());
    assert(ev + merge_names(seen0, mv.take(0)).0 =~= ev);
    while j < more.len()
        invariant
            j <= more@.len(),
            mv == text::string_views(more@),
            seen0 == lowercased(ev),
            text::string_views(r@) == ev + merge_names(seen0, mv.take(j as int)).0,
            text::views(seen@) == merge_names(seen0, mv.take(j as int)).1,
        decreases more@.len() - j,
    {
        assert(mv.take(j + 1).drop_last() =~= mv.take(j as int));
        assert(mv.take(j + 1).last() == more@[j as int]@);
        let lower = text::to_lowercase_chars(text::chars_of(more[j].as_str()).as_slice());
        if lower.len() > 0 && !text::contains_seq(&seen, lower.as_slice()) {
            let ghost rb = text::string_views(r@);
            let ghost sb = text::views(seen@);
            r.push(more[j].clone());
            seen.push(lower);
            assert(text::string_views(r@) =~= rb.push(mv[j as int]));
            assert(text::views(seen@) =~= sb.push(text::lowercase(mv[j as int])));
            assert(ev + merge_names(seen0, mv.take(j + 1)).0 =~= rb.push(mv[j as int]));
        }
        j = j + 1;
    }
    assert(mv.take(j as int) =~= mv);
    r
}

/// The title of a recording: the one given, else "Untitled Recording" when
/// no speech was heard, else the calendar event's title when it makes one,
/// else a title generated from the context note or transcript.
pub open spec fn title_for(
    given: Option<Seq<char>>,
    no_speech: bool,
    calendar_title: Option<Seq<char>>,
    transcript: Seq<char>,
    pre_context: Option<Seq<char>>,
) -> Seq<char> {
    match given {
        Some(t) => t,
        None => if no_speech {
            "Untitled Recording"@
        } else {
            let from_calendar = match calendar_title {
                Some(c) => title::context_title(c),
                None => None,
            };
            match from_calendar {
                Some(t) => title::finalized_title(t),
                None => title::generated_title(transcript, pre_context),
            }
        },
    }
}

/// The title of a recording; see `title_for`.
pub fn recording_title(
    given: Option<&str>,
    status: OutputStatus,
    calendar_title: Option<&str>,
    transcript: &str,
    pre_context: Option<&str>,
) -> (r: String)
    ensures
        r@ == title_for(
            title::opt_view(given),
            status == OutputStatus::NoSpeech,
            title::opt_view(calendar_title),
            transcript@,
            title::opt_view(pre_context),
        ),
{
    match given {
        Some(t) => t.to_owned(),
        None => {
            if status == OutputStatus::NoSpeech {
                return String::from_str("Untitled Recording");
            }
            let from_calendar = match calendar_title {
                Some(c) => title::title_from_context(c),
                None => None,
            };
            match from_calendar {
                Some(t) => title::finalize_title(t),
                None => title::generate_title(transcript, pre_context),
            }
        },
    }
}

/// The source recorded for an artifact: the sidecar's when given, else
/// `voice-memos` for memos, `dictation` for dictations, none for meetings.
pub open spec fn source_for(sidecar_source: Option<Seq<char>>, content_type: ContentType) -> Option<Seq<char>> {
    match sidecar_source {
        Some(s) => Some(s),
        None => match content_type {
            ContentType::Memo => Some("voice-memos"@),
            ContentType::Meeting => None,
            ContentType::Dictation => Some("dictation"@),
        },
    }
}

/// The source of an artifact; see `source_for`.
pub fn default_source(sidecar_source: Option<&str>, content_type: ContentType) -> (r: Option<String>)
    ensures
        text::opt_string(r) == source_for(title::opt_view(sidecar_source), content_type),
{
    match sidecar_source {
        Some(s) => Some(s.to_owned()),
        None => match content_type {
            ContentType::Memo => Some(String::from_str("voice-memos")),
            ContentType::Meeting => None,
            ContentType::Dictation => Some(String::from_str("dictation")),
        },
    }
}

/// The whole seconds of a 16 kHz mono 16-bit WAV file of `bytes` bytes:
/// 32000 bytes a second after the 44-byte header.
pub open spec fn wav_seconds(bytes: nat) -> nat {
    if bytes > 44 {
        ((bytes - 44) as nat) / 32000
    } else {
        0
    }
}

/// `"{m}m {s}s"` for a duration with whole minutes, else `"{s}s"`.
pub open spec fn duration_text(secs: nat) -> Seq<char> {
    let mins = secs / 60;
    let rest = secs % 60;
    if mins > 0 {
        numbers::decimal(mins) + "m "@ + numbers::decimal(rest) + "s"@
    } else {
        numbers::decimal(rest) + "s"@
    }
}

/// The estimated duration of a WAV recording of `bytes` bytes; see
/// `wav_seconds` and `duration_text`.
pub fn estimate_duration(bytes: u64) -> (r: String)
    ensures
        r@ == duration_text(wav_seconds(bytes as nat)),
{
    let secs: u64 = if bytes > 44 {
        (bytes - 44) / 32000
    } else {
        0
    };
    let mins = secs / 60;
    let rest = secs % 60;
    proof {
        reveal_strlit("");
        assert(""@ =~= Seq::<char>::empty());
    }
    if mins > 0 {
        let mut r = numbers::with_number("", mins, "m ");
        numbers::push_decimal(&mut r, rest);
        r.append("s");
        assert(r@ =~= numbers::decimal(mins as nat) + "m "@ + numbers::decimal(rest as nat) + "s"@);
        r
    } else {
        let r = numbers::with_number("", rest, "s");
        assert(r@ =~= numbers::decimal(rest as nat) + "s"@);
        r
    }
}

/// Whether path `p` begins with the components of `base` (`Path::starts_with`
/// on paths without `.` components): a rooted base needs a rooted path and
/// its parts as a prefix; an unrooted base of a rooted path must have no
/// parts.
pub open spec fn path_starts_with(p: Seq<char>, base: Seq<char>) -> bool {
    let root_p = p.len() > 0 && p[0] == '/';
    let root_b = base.len() > 0 && base[0] == '/';
    let pp = paths::path_parts(p);
    let bp = paths::path_parts(base);
    if root_b {
        root_p && bp.len() <= pp.len() && pp.take(bp.len() as int) == bp
    } else if root_p {
        bp.len() == 0
    } else {
        bp.len() <= pp.len() && pp.take(bp.len() as int) == bp
    }
}

/// Whether an audio file may be processed: when its canonical path is
/// unknown or no directories are configured, yes; else only inside one of
/// the allowed directories whose canonical path is known.
pub open spec fn audio_allowed(audio: Option<Seq<char>>, allowed: Seq<Option<Seq<char>>>) -> bool {
    match audio {
        None => true,
        Some(a) => allowed.len() == 0 || exists|i: int|
            0 <= i < allowed.len() && (#[trigger] allowed[i] matches Some(d) && path_starts_with(a, d)),
    }
}

fn parts_prefix(p: &Vec<Vec<char>>, base: &Vec<Vec<char>>) -> (r: bool)
    ensures
        r == (base@.len() <= p@.len() && text::views(p@).take(base@.len() as int) == text::views(base@)),
{
    if base.len() > p.len() {
        return false;
    }
    let mut i: usize = 0;
    while i < base.len()
        invariant
            base@.len() <= p@.len(),
            i <= base@.len(),
            forall|k: int| 0 <= k < i ==> text::views(p@)[k] == text::views(base@)[k],
        decreases base@.len() - i,
    {
        if !text::chars_eq(p[i].as_slice(), base[i].as_slice()) {
            assert(text::views(p@).take(base@.len() as int)[i as int] != text::views(base@)[i as int]);
            return false;
        }
        i = i + 1;
    }
    assert(text::views(p@).take(base@.len() as int) =~= text::views(base@));
    true
}

fn starts_with_path(p: &str, base: &str) -> (r: bool)
    ensures
        r == path_starts_with(p@, base@),
{
    let pc = text::chars_of(p);
    let bc = text::chars_of(base);
    let root_p = pc.len() > 0 && pc[0] == '/';
    let root_b = bc.len() > 0 && bc[0] == '/';
    let pp = paths::parts_of(pc.as_slice());
    let bp = paths::parts_of(bc.as_slice());
    proof {
        assert(text::views(pp@).len() == pp@.len());
        assert(text::views(bp@).len() == bp@.len());
    }
    if root_b {
        root_p && parts_prefix(&pp, &bp)
    } else if root_p {
        bp.len() == 0
    } else {
        parts_prefix(&pp, &bp)
    }
}

/// Whether an audio file may be processed; see `audio_allowed`.
/// `canonical_audio` is the file's canonical path (none when it could not
/// be resolved) and `canonical_allowed` those of the allowed directories.
pub fn audio_path_allowed(canonical_audio: Option<&str>, canonical_allowed: &Vec<Option<String>>) -> (r: bool)
    ensures
        r == audio_allowed(title::opt_view(canonical_audio), canonical_allowed@.map_values(|d: Option<String>| text::opt_string(d))),
{
    let ghost av = canonical_allowed@.map_values(|d: Option<String>| text::opt_string(d));
    let a = match canonical_audio {
        None => return true,
        Some(a) => a,
    };
    if canonical_allowed.len() == 0 {
        return true;
    }
    let mut i: usize = 0;
    while i < canonical_allowed.len()
        invariant
            i <= canonical_allowed@.len(),
            av == canonical_allowed@.map_values(|d: Option<String>| text::opt_string(d)),
            canonical_audio == Some(a),
            forall|k: int| 0 <= k < i ==> !(#[trigger] av[k] matches Some(d) && path_starts_with(a@, d)),
        decreases canonical_allowed@.len() - i,
    {
        match &canonical_allowed[i] {
            Some(d) => {
                if starts_with_path(a, d.as_str()) {
                    assert(av[i as int] == Some(d@));
                    return true;
                }
                assert(av[i as int] == Some(d@));
            },
            None => {
                assert(av[i as int] is None);
            },
        }
        i = i + 1;
    }
    false
}

/// The error for an audio file outside the allowed directories.
pub fn not_allowed_error(audio_path: &str) -> (r: TranscribeError)
    ensures
        r matches TranscribeError::UnsupportedFormat(m) && m@ == "file not in allowed directories: "@ + audio_path@,
{
    TranscribeError::UnsupportedFormat(numbers::concat2("file not in allowed directories: ", audio_path))
}

/// The frontmatter name of a status.
pub open spec fn status_name(s: OutputStatus) -> Seq<char> {
    match s {
        OutputStatus::Complete => "complete"@,
        OutputStatus::NoSpeech => "no-speech"@,
        OutputStatus::TranscriptOnly => "transcript-only"@,
    }
}

/// The frontmatter name of a status; see `status_name`.
pub fn output_status_label(s: OutputStatus) -> (r: &'static str)
    ensures
        r@ == status_name(s),
{
    match s {
        OutputStatus::Complete => "complete",
        OutputStatus::NoSpeech => "no-speech",
        OutputStatus::TranscriptOnly => "transcript-only",
    }
}

/// The whisper models the settings screen knows, smallest first.
pub open spec fn known_models() -> Seq<Seq<char>> {
    seq!["tiny"@, "base"@, "small"@, "medium"@, "large-v3"@]
}

/// Whether some file name contains `ggml-` followed by `model`.
pub open spec fn model_present(file_names: Seq<Seq<char>>, model: Seq<char>) -> bool {
    exists|i: int| 0 <= i < file_names.len() && text::contains(#[trigger] file_names[i], "ggml-"@ + model)
}

fn model_present_exec(file_names: &Vec<String>, model: &str) -> (r: bool)
    ensures
        r == model_present(text::string_views(file_names@), model@),
{
    let pattern = numbers::concat2("ggml-", model);
    let p = text::chars_of(pattern.as_str());
    let ghost fv = text::string_views(file_names@);
    let mut i: usize = 0;
    while i < file_names.len()
        invariant
            i <= file_names@.len(),
            fv == text::string_views(file_names@),
            p@ == "ggml-"@ + model@,
            forall|k: int| 0 <= k < i ==> !text::contains(#[trigger] fv[k], "ggml-"@ + model@),
        decreases file_names@.len() - i,
    {
        assert(fv[i as int] == file_names@[i as int]@);
        if text::find_chars(text::chars_of(file_names[i].as_str()).as_slice(), p.as_slice(), 0).is_some() {
            return true;
        }
        i = i + 1;
    }
    false
}

/// The known models whose files are among `file_names` (the names in the
/// model directory), in the order of `known_models`.
pub fn downloaded_models(file_names: &Vec<String>) -> (r: Vec<String>)
    ensures
        text::string_views(r@) == known_models().filter(
            |m: Seq<char>| model_present(text::string_views(file_names@), m),
        ),
{
    let models: [&str; 5] = ["tiny", "base", "small", "medium", "large-v3"];
    let ghost km = known_models();
    let ghost keep = |m: Seq<char>| model_present(text::string_views(file_names@), m);
    let mut r: Vec<String> = Vec::new();
    let mut i: usize = 0;
    proof {
        reveal(Seq::filter);
    }
    assert(km.take(0).filter(keep) =~= Seq::<Seq<char>>::empty());
    while i < 5
        invariant
            i <= 5,
            km == known_models(),
            km.len() == 5,
            forall|k: int| 0 <= k < 5 ==> (#[trigger] models@[k])@ == km[k],
            keep == (|m: Seq<char>| model_present(text::string_views(file_names@), m)),
            text::string_views(r@) == km.take(i as int).filter(keep),
        decreases 5 - i,
    {
        reveal(Seq::filter);
        let m = models[i];
        assert(m@ == km[i as int]);
        assert(km.take(i + 1).drop_last() =~= km.take(i as int));
        let present = model_present_exec(file_names, m);
        if present {
            let ghost before = text::string_views(r@);
            r.push(m.to_owned());
            assert(text::string_views(r@) =~= before.push(km[i as int]));
        }
        i = i + 1;
    }
    assert(km.take(5) =~= km);
    r
}

proof fn lemma_merge_names(seen: Seq<Seq<char>>, names: Seq<Seq<char>>)
    ensures
        merge_names(seen, names).1 == seen + lowercased(merge_names(seen, names).0),
        forall|i: int|
            0 <= i < merge_names(seen, names).0.len() ==> text::lowercase(
                #[trigger] merge_names(seen, names).0[i],
            ).len() > 0 && !seen.contains(text::lowercase(merge_names(seen, names).0[i])),
        forall|i: int, j: int|
            0 <= i < j < merge_names(seen, names).0.len() ==> text::lowercase(
                #[trigger] merge_names(seen, names).0[i],
            ) != text::lowercase(#[trigger] merge_names(seen, names).0[j]),
    decreases names.len(),
{
    if names.len() == 0 {
        assert(lowercased(seq![]) =~= Seq::<Seq<char>>::empty());
        assert(seen + Seq::<Seq<char>>::empty() =~= seen);
    } else {
        lemma_merge_names(seen, names.drop_last());
        let (a0, s0) = merge_names(seen, names.drop_last());
        let n = names.last();
        let l = text::lowercase(n);
        if l.len() > 0 && !s0.contains(l) {
            let a = a0.push(n);
            assert(lowercased(a) =~= lowercased(a0).push(l));
            assert(s0.push(l) =~= seen + lowercased(a));
            assert forall|i: int| 0 <= i < a.len() implies text::lowercase(#[trigger] a[i]).len() > 0 && !seen.contains(
                text::lowercase(a[i]),
            ) by {
                if i == a0.len() {
                    assert(a[i] == n);
                    if seen.contains(l) {
                        let k = choose|k: int| 0 <= k < seen.len() && seen[k] == l;
                        assert(s0[k] == l);
                    }
                } else {
                    assert(a[i] == a0[i]);
                }
            }
            assert forall|i: int, j: int| 0 <= i < j < a.len() implies text::lowercase(#[trigger] a[i])
                != text::lowercase(#[trigger] a[j]) by {
                if j == a0.len() {
                    assert(a[j] == n && a[i] == a0[i]);
                    assert(s0[seen.len() + i] == lowercased(a0)[i]);
                    assert(lowercased(a0)[i] == text::lowercase(a0[i]));
                } else {
                    assert(a[j] == a0[j] && a[i] == a0[i]);
                }
            }
        }
    }
}

/// Merging attendees never adds a name twice, ignoring case: every name
/// added has a non-empty lowercase form that no listed attendee has and no
/// other added name has.
pub proof fn merged_attendees_have_no_repeats(existing: Seq<Seq<char>>, more: Seq<Seq<char>>)
    ensures
        ({
            let added = merge_names(lowercased(existing), more).0;
            &&& forall|i: int|
                0 <= i < added.len() ==> text::lowercase(#[trigger] added[i]).len() > 0 && !lowercased(
                    existing,
                ).contains(text::lowercase(added[i]))
            &&& forall|i: int, j: int|
                0 <= i < j < added.len() ==> text::lowercase(#[trigger] added[i]) != text::lowercase(
                    #[trigger] added[j],
                )
            &&& merged_attendees(existing, more) == existing + added
        }),
{
    lemma_merge_names(lowercased(existing), more);
}

/// The arguments given to `sh` to run the post-record hook `command` on
/// the saved file `path`: the path goes in as `$1`, so the shell never
/// parses it.
pub fn post_record_hook_args(command: &str, path: &str) -> (r: Vec<String>)
    ensures
        r@.len() == 4,
        r@[0]@ == "-c"@,
        r@[1]@ == command@ + " \"$1\""@,
        r@[2]@ == "--"@,
        r@[3]@ == path@,
{
    let mut args: Vec<String> = Vec::new();
    args.push(String::from_str("-c"));
    args.push(numbers::concat2(command, " \"$1\""));
    args.push(String::from_str("--"));
    args.push(String::from_str(path));
    args
}

/// The file a whisper model is stored in: `ggml-<model>.bin`.
pub fn model_file_name(model: &str) -> (r: String)
    ensures
        r@ == "ggml-"@ + model@ + ".bin"@,
{
    numbers::concat3("ggml-", model, ".bin")
}

/// Where a whisper model is downloaded from.
pub fn model_download_url(model: &str) -> (r: String)
    ensures
        r@ == "https://huggingface.co/ggerganov/whisper.cpp/resolve/main/ggml-"@ + model@ + ".bin"@,
{
    numbers::concat3("https://huggingface.co/ggerganov/whisper.cpp/resolve/main/ggml-", model, ".bin")
}

/// The answer of a model download: already there, or downloaded with its
/// size in whole mebibytes.
pub fn model_download_message(model: &str, already_present: bool, size_bytes: u64) -> (r: String)
    ensures
        already_present ==> r@ == "Model '"@ + model@ + "' already downloaded"@,
        !already_present ==> r@ == "Downloaded '"@ + model@ + "' model ("@ + numbers::decimal(
            (size_bytes / 1048576u64) as nat,
        ) + " MB)"@,
{
    if already_present {
        numbers::concat3("Model '", model, "' already downloaded")
    } else {
        let mut r = numbers::concat3("Downloaded '", model, "' model (");
        numbers::push_decimal(&mut r, size_bytes / 1048576);
        r.append(" MB)");
        r
    }
}

/// Whether audio of `audio_len` bytes may be processed: an empty file is
/// refused first, then a file outside the allowed directories (`allowed`
/// is what `audio_path_allowed` found).
pub fn check_audio(audio_len: u64, audio_path: &str, allowed: bool) -> (r: Result<(), TranscribeError>)
    ensures
        audio_len == 0 ==> r == Err::<(), TranscribeError>(TranscribeError::EmptyAudio),
        audio_len > 0 && !allowed ==> (r matches Err(TranscribeError::UnsupportedFormat(m)) && m@
            == "file not in allowed directories: "@ + audio_path@),
        audio_len > 0 && allowed ==> r is Ok,
{
    if audio_len == 0 {
        Err(TranscribeError::EmptyAudio)
    } else if !allowed {
        Err(not_allowed_error(audio_path))
    } else {
        Ok(())
    }
}

/// The stage after `stage`, none when the recording is done: transcribing
/// is followed by diarizing (a meeting, with a diarization engine), then
/// summarizing (with a summarization engine), then saving.
pub open spec fn stage_after(stage: PipelineStage, meeting: bool, diarize_on: bool, summarize_on: bool) -> Option<
    PipelineStage,
> {
    match stage {
        PipelineStage::Transcribing => if diarize_on && meeting {
            Some(PipelineStage::Diarizing)
        } else if summarize_on {
            Some(PipelineStage::Summarizing)
        } else {
            Some(PipelineStage::Saving)
        },
        PipelineStage::Diarizing => if summarize_on {
            Some(PipelineStage::Summarizing)
        } else {
            Some(PipelineStage::Saving)
        },
        PipelineStage::Summarizing => Some(PipelineStage::Saving),
        PipelineStage::Saving => None,
    }
}

/// The stage that follows `stage` for a recording of `content_type`, with
/// the configured diarization and summarization engines (`"none"` turns
/// one off); none after saving.
pub fn next_pipeline_stage(
    stage: PipelineStage,
    content_type: ContentType,
    diarization_engine: &str,
    summarization_engine: &str,
) -> (r: Option<PipelineStage>)
    ensures
        r == stage_after(
            stage,
            content_type == ContentType::Meeting,
            diarization_engine@ != "none"@,
            summarization_engine@ != "none"@,
        ),
{
    let diarize_on = !engine_is_none(diarization_engine);
    let summarize_on = !engine_is_none(summarization_engine);
    match stage {
        PipelineStage::Transcribing => if diarize_on && content_type == ContentType::Meeting {
            Some(PipelineStage::Diarizing)
        } else if summarize_on {
            Some(PipelineStage::Summarizing)
        } else {
            Some(PipelineStage::Saving)
        },
        PipelineStage::Diarizing => if summarize_on {
            Some(PipelineStage::Summarizing)
        } else {
            Some(PipelineStage::Saving)
        },
        PipelineStage::Summarizing => Some(PipelineStage::Saving),
        PipelineStage::Saving => None,
    }
}

/// Where enriching a saved transcript starts: nowhere when it holds no
/// speech (the transcript stays as it was saved); else with diarizing (a
/// meeting, with a diarization engine), summarizing (with a summarization
/// engine) or saving.
pub open spec fn enrich_start(no_speech: bool, meeting: bool, diarize_on: bool, summarize_on: bool) -> Option<
    PipelineStage,
> {
    if no_speech {
        None
    } else {
        stage_after(PipelineStage::Transcribing, meeting, diarize_on, summarize_on)
    }
}

/// The first stage of enriching a transcript saved with `status`; see
/// `enrich_start`.
pub fn enrich_first_stage(
    status: OutputStatus,
    content_type: ContentType,
    diarization_engine: &str,
    summarization_engine: &str,
) -> (r: Option<PipelineStage>)
    ensures
        r == enrich_start(
            status == OutputStatus::NoSpeech,
            content_type == ContentType::Meeting,
            diarization_engine@ != "none"@,
            summarization_engine@ != "none"@,
        ),
{
    if status == OutputStatus::NoSpeech {
        None
    } else {
        next_pipeline_stage(PipelineStage::Transcribing, content_type, diarization_engine, summarization_engine)
    }
}

/// The order of the stages.
pub open spec fn stage_rank(s: PipelineStage) -> int {
    match s {
        PipelineStage::Transcribing => 0,
        PipelineStage::Diarizing => 1,
        PipelineStage::Summarizing => 2,
        PipelineStage::Saving => 3,
    }
}

/// The stages of processing a recording only move forward, so each runs at
/// most once and saving ends them; diarizing comes only for a meeting with
/// a diarization engine, summarizing only with a summarization engine, and
/// every run reaches saving.
pub proof fn pipeline_stages_advance(stage: PipelineStage, meeting: bool, diarize_on: bool, summarize_on: bool)
    ensures
        stage_after(stage, meeting, diarize_on, summarize_on) matches Some(n) ==> stage_rank(n) > stage_rank(stage),
        stage_after(stage, meeting, diarize_on, summarize_on) == Some(PipelineStage::Diarizing) ==> meeting
            && diarize_on,
        stage_after(stage, meeting, diarize_on, summarize_on) == Some(PipelineStage::Summarizing) ==> summarize_on,
        stage_after(stage, meeting, diarize_on, summarize_on) is None <==> stage == PipelineStage::Saving,
        enrich_start(true, meeting, diarize_on, summarize_on) is None,
{
}

/// The front matter of a meeting's markdown, with its times as text.
pub struct Frontmatter {
    pub title: String,
    pub content_type: ContentType,
    pub date: String,
    pub duration: String,
    pub source: Option<String>,
    pub status: Option<OutputStatus>,
    pub tags: Vec<String>,
    pub attendees: Vec<String>,
    pub calendar_event: Option<String>,
    pub people: Vec<String>,
    pub entities: EntityLinks,
    pub device: Option<String>,
    pub captured_at: Option<String>,
    pub context: Option<String>,
    pub action_items: Vec<ActionItem>,
    pub decisions: Vec<Decision>,
    pub intents: Vec<Intent>,
    pub recorded_by: Option<String>,
    pub visibility: Option<String>,
    pub speaker_map: Vec<SpeakerAttribution>,
    pub filter_diagnosis: Option<String>,
}

/// A saved transcript, before enrichment: where it was written, its front
/// matter and its text.
pub struct TranscriptArtifact {
    pub write_result: WriteResult,
    pub frontmatter: Frontmatter,
    pub transcript: String,
}

/// What a transcript's recording brings besides its text: the given title,
/// the calendar event's title and attendees, the user's context, the
/// sidecar's source, device and capture time, the date and duration as
/// text, the owner, and the transcription filter's diagnosis.
#[derive(Debug, Clone)]
pub struct TranscriptFacts {
    pub content_type: ContentType,
    pub given_title: Option<String>,
    pub word_count: usize,
    pub min_words: usize,
    pub calendar_title: Option<String>,
    pub attendees: Vec<String>,
    pub pre_context: Option<String>,
    pub sidecar_source: Option<String>,
    pub device: Option<String>,
    pub captured_at: Option<String>,
    pub date: String,
    pub duration: String,
    pub recorded_by: Option<String>,
    pub diagnosis: String,
}

/// The labels of entity references, in order.
pub open spec fn ref_labels(v: Seq<entities::EntityRef>) -> Seq<Seq<char>> {
    Seq::new(v.len(), |i: int| v[i].label@)
}

fn labels_of_refs(v: &Vec<entities::EntityRef>) -> (r: Vec<String>)
    ensures
        text::string_views(r@) == ref_labels(v@),
{
    let mut r: Vec<String> = Vec::new();
    let mut i: usize = 0;
    while i < v.len()
        invariant
            i <= v@.len(),
            r@.len() == i,
            text::string_views(r@) == ref_labels(v@).take(i as int),
        decreases v@.len() - i,
    {
        let ghost before = r@;
        r.push(String::from_str(v[i].label.as_str()));
        proof {
            assert(r@[i as int]@ == v@[i as int].label@);
            assert(text::string_views(r@) =~= text::string_views(before).push(r@[i as int]@));
            assert(ref_labels(v@).take(i + 1) =~= ref_labels(v@).take(i as int).push(v@[i as int].label@));
        }
        i = i + 1;
    }
    assert(ref_labels(v@).take(v@.len() as int) =~= ref_labels(v@));
    r
}

fn copy_strings(v: &Vec<String>) -> (r: Vec<String>)
    ensures
        text::string_views(r@) == text::string_views(v@),
{
    let mut r: Vec<String> = Vec::new();
    let mut i: usize = 0;
    while i < v.len()
        invariant
            i <= v@.len(),
            r@.len() == i,
            text::string_views(r@) == text::string_views(v@).take(i as int),
        decreases v@.len() - i,
    {
        let ghost before = r@;
        r.push(String::from_str(v[i].as_str()));
        proof {
            assert(r@[i as int]@ == v@[i as int]@);
            assert(text::string_views(r@) =~= text::string_views(before).push(r@[i as int]@));
            assert(text::string_views(v@).take(i + 1) =~= text::string_views(v@).take(i as int).push(v@[i as int]@));
        }
        i = i + 1;
    }
    assert(text::string_views(v@).take(v@.len() as int) =~= text::string_views(v@));
    r
}

fn opt_copy(o: &Option<String>) -> (r: Option<String>)
    ensures
        text::opt_string(r) == text::opt_string(*o),
{
    match o {
        Some(s) => Some(String::from_str(s.as_str())),
        None => None,
    }
}

/// The front matter a transcript is first saved with: no speech below
/// the word minimum, else transcript only; the title of `title_for`; the
/// source of `source_for`; entity links from the title, the context and
/// the attendees, and the people they name; the filter's diagnosis only
/// when there is no speech; no tags, action items, decisions, intents,
/// speaker map or visibility.
pub fn transcript_frontmatter(facts: &TranscriptFacts, transcript: &str) -> (r: Frontmatter)
    ensures
        r.status == Some(status_for(facts.word_count as nat, facts.min_words as nat, false)),
        r.title@ == title_for(
            text::opt_string(facts.given_title),
            facts.word_count < facts.min_words,
            text::opt_string(facts.calendar_title),
            transcript@,
            text::opt_string(facts.pre_context),
        ),
        r.content_type == facts.content_type,
        r.date@ == facts.date@,
        r.duration@ == facts.duration@,
        text::opt_string(r.source) == source_for(text::opt_string(facts.sidecar_source), facts.content_type),
        r.tags@.len() == 0,
        text::string_views(r.attendees@) == text::string_views(facts.attendees@),
        text::opt_string(r.calendar_event) == text::opt_string(facts.calendar_title),
        entities::ref_views(r.entities.people@) == entities::add_people(
            Seq::empty(),
            entities::person_mentions(r.attendees@, Seq::empty(), Seq::empty()),
        ),
        entities::ref_views(r.entities.projects@) == entities::add_projects(
            Seq::empty(),
            entities::project_mentions(r.title@, text::opt_string(facts.pre_context), Seq::empty(), Seq::empty()),
        ),
        text::string_views(r.people@) == ref_labels(r.entities.people@),
        text::opt_string(r.device) == text::opt_string(facts.device),
        text::opt_string(r.captured_at) == text::opt_string(facts.captured_at),
        text::opt_string(r.context) == text::opt_string(facts.pre_context),
        r.action_items@.len() == 0,
        r.decisions@.len() == 0,
        r.intents@.len() == 0,
        text::opt_string(r.recorded_by) == text::opt_string(facts.recorded_by),
        r.visibility is None,
        r.speaker_map@.len() == 0,
        text::opt_string(r.filter_diagnosis) == (if facts.word_count < facts.min_words {
            Some(facts.diagnosis@)
        } else {
            None
        }),
{
    let status = transcript_status(facts.word_count, facts.min_words);
    let given = match &facts.given_title {
        Some(t) => Some(t.as_str()),
        None => None,
    };
    let calendar = match &facts.calendar_title {
        Some(t) => Some(t.as_str()),
        None => None,
    };
    let context = match &facts.pre_context {
        Some(t) => Some(t.as_str()),
        None => None,
    };
    let sidecar = match &facts.sidecar_source {
        Some(t) => Some(t.as_str()),
        None => None,
    };
    let title = recording_title(given, status, calendar, transcript, context);
    let attendees = copy_strings(&facts.attendees);
    let no_items: Vec<ActionItem> = Vec::new();
    let no_decisions: Vec<Decision> = Vec::new();
    let no_intents: Vec<Intent> = Vec::new();
    let no_tags: Vec<String> = Vec::new();
    let links = entities::build_entity_links(
        title.as_str(),
        context,
        attendees.as_slice(),
        no_items.as_slice(),
        no_decisions.as_slice(),
        no_intents.as_slice(),
        no_tags.as_slice(),
    );
    proof {
        assert(no_items@ =~= Seq::<ActionItem>::empty());
        assert(no_decisions@ =~= Seq::<Decision>::empty());
        assert(no_intents@ =~= Seq::<Intent>::empty());
        assert(no_tags@ =~= Seq::<String>::empty());
    }
    let people = labels_of_refs(&links.people);
    let diagnosis = if status == OutputStatus::NoSpeech {
        Some(String::from_str(facts.diagnosis.as_str()))
    } else {
        None
    };
    Frontmatter {
        title,
        content_type: facts.content_type,
        date: String::from_str(facts.date.as_str()),
        duration: String::from_str(facts.duration.as_str()),
        source: default_source(sidecar, facts.content_type),
        status: Some(status),
        tags: Vec::new(),
        attendees,
        calendar_event: opt_copy(&facts.calendar_title),
        people,
        entities: links,
        device: opt_copy(&facts.device),
        captured_at: opt_copy(&facts.captured_at),
        context: opt_copy(&facts.pre_context),
        action_items: Vec::new(),
        decisions: Vec::new(),
        intents: Vec::new(),
        recorded_by: opt_copy(&facts.recorded_by),
        visibility: None,
        speaker_map: Vec::new(),
        filter_diagnosis: diagnosis,
    }
}

} // verus!
