//! Recording state kept in files: where each file lives, what a PID file
//! holds, and the decisions about stale and active recordings.
//!
//! A recording moves from none to recording when its PID file is created,
//! back to none when it is removed, and to stale when its process dies; a
//! stale PID file is cleaned up when found.

use crate::config::minutes_dir;
use crate::daily_notes;
use crate::errors::PidError;
use crate::markdown::ContentType;
use crate::numbers;
use crate::paths;
use crate::text;
use vstd::prelude::*;

verus! {

/// The path of the recording PID file: `recording.pid` in the state directory.
pub fn pid_path(minutes_dir: &str) -> (r: String)
    ensures
        r@ == paths::joined(minutes_dir@, "recording.pid"@),
{
    paths::join_str(minutes_dir, "recording.pid")
}

/// The path of the dictation PID file: `dictation.pid` in the state directory.
pub fn dictation_pid_path(minutes_dir: &str) -> (r: String)
    ensures
        r@ == paths::joined(minutes_dir@, "dictation.pid"@),
{
    paths::join_str(minutes_dir, "dictation.pid")
}

/// The path of the live transcript PID file: `live-transcript.pid` in the state directory.
pub fn live_transcript_pid_path(minutes_dir: &str) -> (r: String)
    ensures
        r@ == paths::joined(minutes_dir@, "live-transcript.pid"@),
{
    paths::join_str(minutes_dir, "live-transcript.pid")
}

/// The path of the live transcript lines: `live-transcript.jsonl` in the state directory.
pub fn live_transcript_jsonl_path(minutes_dir: &str) -> (r: String)
    ensures
        r@ == paths::joined(minutes_dir@, "live-transcript.jsonl"@),
{
    paths::join_str(minutes_dir, "live-transcript.jsonl")
}

/// The path of the live transcript audio: `live-transcript.wav` in the state directory.
pub fn live_transcript_wav_path(minutes_dir: &str) -> (r: String)
    ensures
        r@ == paths::joined(minutes_dir@, "live-transcript.wav"@),
{
    paths::join_str(minutes_dir, "live-transcript.wav")
}

/// The path of the live transcript status: `live-transcript-status.json` in the state directory.
pub fn live_transcript_status_path(minutes_dir: &str) -> (r: String)
    ensures
        r@ == paths::joined(minutes_dir@, "live-transcript-status.json"@),
{
    paths::join_str(minutes_dir, "live-transcript-status.json")
}

/// The path of the recording metadata: `recording-meta.json` in the state directory.
pub fn recording_meta_path(minutes_dir: &str) -> (r: String)
    ensures
        r@ == paths::joined(minutes_dir@, "recording-meta.json"@),
{
    paths::join_str(minutes_dir, "recording-meta.json")
}

/// The path of the audio being captured: `current.wav` in the state directory.
pub fn current_wav_path(minutes_dir: &str) -> (r: String)
    ensures
        r@ == paths::joined(minutes_dir@, "current.wav"@),
{
    paths::join_str(minutes_dir, "current.wav")
}

/// The path of the last recording's result: `last-result.json` in the state directory.
pub fn last_result_path(minutes_dir: &str) -> (r: String)
    ensures
        r@ == paths::joined(minutes_dir@, "last-result.json"@),
{
    paths::join_str(minutes_dir, "last-result.json")
}

/// The path of the processing status: `processing-status.json` in the state directory.
pub fn processing_status_path(minutes_dir: &str) -> (r: String)
    ensures
        r@ == paths::joined(minutes_dir@, "processing-status.json"@),
{
    paths::join_str(minutes_dir, "processing-status.json")
}

/// The path of the file that asks a recording to stop: `recording.stop` in the state directory.
pub fn stop_sentinel_path(minutes_dir: &str) -> (r: String)
    ensures
        r@ == paths::joined(minutes_dir@, "recording.stop"@),
{
    paths::join_str(minutes_dir, "recording.stop")
}

/// What a capture session is for.
#[derive(Debug, Clone, Copy, PartialEq, Eq, Structural)]
pub enum CaptureMode {
    Meeting,
    QuickThought,
    Dictation,
    LiveTranscript,
}

/// The noun for a capture mode.
pub open spec fn mode_noun(m: CaptureMode) -> Seq<char> {
    match m {
        CaptureMode::Meeting => "meeting"@,
        CaptureMode::QuickThought => "quick thought"@,
        CaptureMode::Dictation => "dictation"@,
        CaptureMode::LiveTranscript => "live transcript"@,
    }
}

impl CaptureMode {
    /// The kind of artifact a session in this mode produces: live
    /// transcripts become meetings, quick thoughts memos.
    pub fn content_type(self) -> (r: ContentType)
        ensures
            r == match self {
                CaptureMode::Meeting | CaptureMode::LiveTranscript => ContentType::Meeting,
                CaptureMode::QuickThought => ContentType::Memo,
                CaptureMode::Dictation => ContentType::Dictation,
            },
    {
        match self {
            CaptureMode::Meeting | CaptureMode::LiveTranscript => ContentType::Meeting,
            CaptureMode::QuickThought => ContentType::Memo,
            CaptureMode::Dictation => ContentType::Dictation,
        }
    }

    /// The noun for this mode.
    pub fn noun(self) -> (r: &'static str)
        ensures
            r@ == mode_noun(self),
    {
        match self {
            CaptureMode::Meeting => "meeting",
            CaptureMode::QuickThought => "quick thought",
            CaptureMode::Dictation => "dictation",
            CaptureMode::LiveTranscript => "live transcript",
        }
    }
}

/// What is recorded about the session in progress.
#[derive(Debug, Clone, Copy)]
pub struct RecordingMetadata {
    pub mode: CaptureMode,
}

/// Whether recordings are being processed, and which.
#[derive(Debug, Clone)]
pub struct ProcessingStatus {
    pub processing: bool,
    pub stage: Option<String>,
    pub owner_pid: u32,
    pub mode: Option<CaptureMode>,
    pub title: Option<String>,
    pub job_id: Option<String>,
    pub job_count: usize,
}

/// Whether a status is the idle one: nothing processing, no owner.
pub open spec fn is_idle(s: ProcessingStatus) -> bool {
    &&& !s.processing
    &&& s.stage is None
    &&& s.owner_pid == 0
    &&& s.mode is None
    &&& s.title is None
    &&& s.job_id is None
    &&& s.job_count == 0
}

/// The status when nothing is being processed.
pub fn idle_processing_status() -> (r: ProcessingStatus)
    ensures
        is_idle(r),
        status_view(r) == idle_view(),
{
    ProcessingStatus {
        processing: false,
        stage: None,
        owner_pid: 0,
        mode: None,
        title: None,
        job_id: None,
        job_count: 0,
    }
}

fn opt_owned(o: Option<&str>) -> (r: Option<String>)
    ensures
        text::opt_string(r) == daily_notes::opt_str(o),
{
    match o {
        Some(s) => Some(s.to_owned()),
        None => None,
    }
}

/// A processing status as plain values.
pub ghost struct StatusView {
    pub processing: bool,
    pub stage: Option<Seq<char>>,
    pub owner_pid: u32,
    pub mode: Option<CaptureMode>,
    pub title: Option<Seq<char>>,
    pub job_id: Option<Seq<char>>,
    pub job_count: usize,
}

/// The plain values of a processing status.
pub open spec fn status_view(s: ProcessingStatus) -> StatusView {
    StatusView {
        processing: s.processing,
        stage: text::opt_string(s.stage),
        owner_pid: s.owner_pid,
        mode: s.mode,
        title: text::opt_string(s.title),
        job_id: text::opt_string(s.job_id),
        job_count: s.job_count,
    }
}

/// The idle status as plain values.
pub open spec fn idle_view() -> StatusView {
    StatusView {
        processing: false,
        stage: None,
        owner_pid: 0,
        mode: None,
        title: None,
        job_id: None,
        job_count: 0,
    }
}

/// The status process `owner_pid` writes while processing, as plain values.
pub open spec fn written_status(
    stage: Option<Seq<char>>,
    mode: Option<CaptureMode>,
    title: Option<Seq<char>>,
    job_id: Option<Seq<char>>,
    job_count: usize,
    owner_pid: u32,
) -> StatusView {
    StatusView { processing: true, stage, owner_pid, mode, title, job_id, job_count }
}

/// What reading a stored status gives, as plain values: the status, and
/// whether the stored one is to be removed.
pub open spec fn settled_status(stored: Option<StatusView>, owner_alive: bool) -> (StatusView, bool) {
    match stored {
        Some(s) => if s.owner_pid != 0 && owner_alive {
            (s, false)
        } else {
            (idle_view(), true)
        },
        None => (idle_view(), false),
    }
}

/// A status that a live process writes reads back as it was written, and
/// is kept: the round trip through the status file loses nothing while
/// its owner (a non-zero PID) lives; once the owner is gone it reads as
/// idle and is removed.
pub proof fn processing_status_round_trips(
    stage: Option<Seq<char>>,
    mode: Option<CaptureMode>,
    title: Option<Seq<char>>,
    job_id: Option<Seq<char>>,
    job_count: usize,
    owner_pid: u32,
)
    ensures
        owner_pid != 0 ==> settled_status(
            Some(written_status(stage, mode, title, job_id, job_count, owner_pid)),
            true,
        ) == (written_status(stage, mode, title, job_id, job_count, owner_pid), false),
        settled_status(Some(written_status(stage, mode, title, job_id, job_count, owner_pid)), false) == (
            idle_view(),
            true,
        ),
{
}

/// The status process `owner_pid` writes while processing.
pub fn processing_status(
    stage: Option<&str>,
    mode: Option<CaptureMode>,
    title: Option<&str>,
    job_id: Option<&str>,
    job_count: usize,
    owner_pid: u32,
) -> (r: ProcessingStatus)
    ensures
        status_view(r) == written_status(
            daily_notes::opt_str(stage),
            mode,
            daily_notes::opt_str(title),
            daily_notes::opt_str(job_id),
            job_count,
            owner_pid,
        ),
        r.processing,
        text::opt_string(r.stage) == daily_notes::opt_str(stage),
        r.owner_pid == owner_pid,
        r.mode == mode,
        text::opt_string(r.title) == daily_notes::opt_str(title),
        text::opt_string(r.job_id) == daily_notes::opt_str(job_id),
        r.job_count == job_count,
{
    ProcessingStatus {
        processing: true,
        stage: opt_owned(stage),
        owner_pid,
        mode,
        title: opt_owned(title),
        job_id: opt_owned(job_id),
        job_count,
    }
}

/// What reading the processing status gives: the stored status while its
/// owner (a non-zero PID) is alive; otherwise the idle status, and a stored
/// status whose owner is gone is to be removed. `owner_alive` is whether
/// the stored owner's process exists; it is not consulted for PID 0.
/// Gives the status and whether to remove the stored one.
pub fn settle_processing_status(stored: Option<ProcessingStatus>, owner_alive: bool) -> (r: (
    ProcessingStatus,
    bool,
))
    ensures
        match stored {
            Some(s) => if s.owner_pid != 0 && owner_alive {
                r.0 == s && !r.1
            } else {
                is_idle(r.0) && r.1
            },
            None => is_idle(r.0) && !r.1,
        },
        (status_view(r.0), r.1) == settled_status(
            match stored {
                Some(s) => Some(status_view(s)),
                None => None,
            },
            owner_alive,
        ),
{
    match stored {
        Some(s) => {
            if s.owner_pid != 0 && owner_alive {
                (s, false)
            } else {
                (idle_processing_status(), true)
            }
        },
        None => (idle_processing_status(), false),
    }
}

/// The PID in a PID file: its trimmed text read as a `u32`; unreadable
/// text is a stale PID file (reported as PID 0).
pub fn pid_from_file(contents: &str) -> (r: Result<u32, PidError>)
    ensures
        match numbers::parsed_u32(text::trim(contents@)) {
            Some(p) => r == Ok::<u32, PidError>(p),
            None => r matches Err(PidError::StalePid(0)),
        },
{
    let t = text::trim_chars(text::chars_of(contents).as_slice());
    match numbers::parse_u32(t.as_slice()) {
        Some(p) => Ok(p),
        None => Err(PidError::StalePid(0)),
    }
}

/// The PID a PID file names: its trimmed text read as a `u32`, if it is
/// one.
pub fn pid_in_file(contents: &str) -> (r: Option<u32>)
    ensures
        r == numbers::parsed_u32(text::trim(contents@)),
{
    let t = text::trim_chars(text::chars_of(contents).as_slice());
    numbers::parse_u32(t.as_slice())
}

/// What a PID file that exists stands for.
#[derive(Debug, Clone, Copy, PartialEq, Eq, Structural)]
pub enum PidFileState {
    /// A live process holds it: this PID.
    Active(u32),
    /// No live process holds it (its process is dead, or its text names no
    /// PID): the file is to be removed, and no process is reported.
    Stale,
}

/// The state of a PID file naming `pid` (none when its text names no PID),
/// `alive` telling whether that process exists.
pub open spec fn pid_file_verdict(pid: Option<u32>, alive: bool) -> PidFileState {
    match pid {
        Some(p) => if alive {
            PidFileState::Active(p)
        } else {
            PidFileState::Stale
        },
        None => PidFileState::Stale,
    }
}

/// `pid_file_verdict(pid, alive)`: a PID file is active only while it
/// names a live process; any other file is stale.
pub fn pid_file_state(pid: Option<u32>, alive: bool) -> (r: PidFileState)
    ensures
        r == pid_file_verdict(pid, alive),
{
    match pid {
        Some(p) => if alive {
            PidFileState::Active(p)
        } else {
            PidFileState::Stale
        },
        None => PidFileState::Stale,
    }
}

/// The PID held in a locked PID file: none when it is blank, its PID when
/// it holds one, and a stale PID file (PID 0) otherwise.
pub fn pid_from_locked_file(contents: &str) -> (r: Result<Option<u32>, PidError>)
    ensures
        text::trim(contents@).len() == 0 ==> r == Ok::<Option<u32>, PidError>(None),
        text::trim(contents@).len() > 0 ==> match numbers::parsed_u32(text::trim(contents@)) {
            Some(p) => r == Ok::<Option<u32>, PidError>(Some(p)),
            None => r matches Err(PidError::StalePid(0)),
        },
{
    let t = text::trim_chars(text::chars_of(contents).as_slice());
    if t.len() == 0 {
        return Ok(None);
    }
    match numbers::parse_u32(t.as_slice()) {
        Some(p) => Ok(Some(p)),
        None => Err(PidError::StalePid(0)),
    }
}

/// The PID reported for a PID file whose lock another process holds: the
/// PID it holds, or 0 when it cannot be read.
pub fn holder_pid(contents: Option<&str>) -> (r: u32)
    ensures
        r == match contents {
            Some(c) => match numbers::parsed_u32(text::trim(c@)) {
                Some(p) => p,
                None => 0,
            },
            None => 0,
        },
{
    match contents {
        Some(c) => match pid_from_file(c) {
            Ok(p) => p,
            Err(_) => 0,
        },
        None => 0,
    }
}

/// Whether a locked PID file may be claimed: not while it names a live
/// process (a non-zero PID whose process exists), which is reported as
/// already recording.
pub fn claim_pid_file(previous: Option<u32>, previous_alive: bool) -> (r: Result<(), PidError>)
    ensures
        match previous {
            Some(p) => if p != 0 && previous_alive {
                r matches Err(PidError::AlreadyRecording(q)) && q == p
            } else {
                r is Ok
            },
            None => r is Ok,
        },
{
    match previous {
        Some(p) => {
            if p != 0 && previous_alive {
                Err(PidError::AlreadyRecording(p))
            } else {
                Ok(())
            }
        },
        None => Ok(()),
    }
}

/// The recording named by a PID file whose PID was read: the PID while its
/// process is alive; none when it is dead (the stale file is then removed).
pub fn active_pid(pid: u32, alive: bool) -> (r: Option<u32>)
    ensures
        r == if alive {
            Some(pid)
        } else {
            None::<u32>
        },
{
    if alive {
        Some(pid)
    } else {
        None
    }
}

} // verus!
