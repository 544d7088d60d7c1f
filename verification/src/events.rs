//! Events appended to the event log for agents to react to, and building
//! them from a written artifact.

use crate::config::minutes_dir;
use crate::markdown::{self, WriteResult};
use crate::numbers;
use crate::paths;
use vstd::prelude::*;

verus! {

/// Something that happened to a meeting, as the event log records it.
#[derive(Debug, Clone)]
pub enum MinutesEvent {
    RecordingCompleted {
        path: String,
        title: String,
        word_count: usize,
        content_type: String,
        duration: String,
    },
    AudioProcessed {
        path: String,
        title: String,
        word_count: usize,
        content_type: String,
        source_path: String,
    },
    WatchProcessed { path: String, title: String, word_count: usize, source_path: String },
    NoteAdded { meeting_path: String, text: String },
    VaultSynced { source_path: String, vault_path: String, strategy: String },
}

/// The event for audio processed into `result`, from `source_path`.
pub fn audio_processed_event(result: &WriteResult, source_path: &str) -> (r: MinutesEvent)
    ensures
        r matches MinutesEvent::AudioProcessed { path, title, word_count, content_type, source_path: s }
            && path@ == result.path@ && title@ == result.title@ && word_count == result.word_count
            && content_type@ == markdown::content_type_name(result.content_type) && s@ == source_path@,
{
    MinutesEvent::AudioProcessed {
        path: result.path.clone(),
        title: result.title.clone(),
        word_count: result.word_count,
        content_type: markdown::content_type_label(result.content_type),
        source_path: source_path.to_owned(),
    }
}

/// The event for a recording written as `result`, lasting `duration`.
pub fn recording_completed_event(result: &WriteResult, duration: &str) -> (r: MinutesEvent)
    ensures
        r matches MinutesEvent::RecordingCompleted { path, title, word_count, content_type, duration: d }
            && path@ == result.path@ && title@ == result.title@ && word_count == result.word_count
            && content_type@ == markdown::content_type_name(result.content_type) && d@ == duration@,
{
    MinutesEvent::RecordingCompleted {
        path: result.path.clone(),
        title: result.title.clone(),
        word_count: result.word_count,
        content_type: markdown::content_type_label(result.content_type),
        duration: duration.to_owned(),
    }
}

/// The event log's file in the state directory.
pub fn events_path(minutes_dir: &str) -> (r: String)
    ensures
        r@ == paths::joined(minutes_dir@, "events.jsonl"@),
{
    paths::join_str(minutes_dir, "events.jsonl")
}

/// The event log rotates once it reaches this size.
pub const MAX_EVENT_FILE_BYTES: u64 = 10_485_760;

/// Whether an event log of `len` bytes is rotated before appending.
pub fn needs_rotation(len: u64) -> (r: bool)
    ensures
        r == (len >= MAX_EVENT_FILE_BYTES),
{
    len >= MAX_EVENT_FILE_BYTES
}

/// The name a log rotated on `date` (`YYYY-MM-DD`) gets.
pub fn rotated_events_name(date: &str) -> (r: String)
    ensures
        r@ == "events."@ + date@ + ".jsonl"@,
{
    numbers::concat3("events.", date, ".jsonl")
}

/// The last `limit` of `n` events (all of them without a limit): the
/// index of the first one kept.
pub fn events_tail_start(n: usize, limit: Option<usize>) -> (r: usize)
    ensures
        r == match limit {
            Some(l) => if n > l {
                (n - l) as usize
            } else {
                0
            },
            None => 0,
        },
{
    match limit {
        Some(l) => n.saturating_sub(l),
        None => 0,
    }
}

} // verus!
