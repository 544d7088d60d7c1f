//! Background processing jobs as the desktop app shows them: each job's
//! row in the job list, and the notice a finished job leaves.

use crate::app_state::{OutputNotice, ProcessingJobView};
use crate::pid::CaptureMode;
use vstd::prelude::*;

verus! {

/// Where a processing job stands.
#[derive(Debug, Clone, Copy, PartialEq, Eq, Structural)]
pub enum JobState {
    Queued,
    Transcribing,
    TranscriptOnly,
    Diarizing,
    Summarizing,
    Saving,
    NeedsReview,
    Complete,
    Failed,
}

/// A processing job with its times as RFC 3339 text.
#[derive(Debug, Clone)]
pub struct ProcessingJob {
    pub id: String,
    pub title: Option<String>,
    pub mode: CaptureMode,
    pub state: JobState,
    pub stage: Option<String>,
    pub output_path: Option<String>,
    pub audio_path: String,
    pub error: Option<String>,
    pub created_at: String,
    pub started_at: Option<String>,
    pub finished_at: Option<String>,
    pub word_count: Option<usize>,
}

/// The frontend's name of a job state.
pub open spec fn job_state_name(s: JobState) -> Seq<char> {
    match s {
        JobState::Queued => "queued"@,
        JobState::Transcribing => "transcribing"@,
        JobState::TranscriptOnly => "transcript-only"@,
        JobState::Diarizing => "diarizing"@,
        JobState::Summarizing => "summarizing"@,
        JobState::Saving => "saving"@,
        JobState::NeedsReview => "needs-review"@,
        JobState::Complete => "complete"@,
        JobState::Failed => "failed"@,
    }
}

/// The frontend's name of a capture mode.
pub open spec fn job_mode_name(m: CaptureMode) -> Seq<char> {
    match m {
        CaptureMode::Meeting => "meeting"@,
        CaptureMode::QuickThought => "quick-thought"@,
        CaptureMode::Dictation => "dictation"@,
        CaptureMode::LiveTranscript => "live-transcript"@,
    }
}

/// `o`'s text, or `fallback`.
pub open spec fn or_text(o: Option<String>, fallback: Seq<char>) -> Seq<char> {
    match o {
        Some(s) => s@,
        None => fallback,
    }
}

fn or_string(o: Option<String>, fallback: &str) -> (r: String)
    ensures
        r@ == or_text(o, fallback@),
{
    match o {
        Some(s) => s,
        None => fallback.to_owned(),
    }
}

/// A job's row in the job list: its title (`Queued recording` when it has
/// none), mode and state names, and its other fields as they are.
pub fn processing_job_view(job: ProcessingJob) -> (r: ProcessingJobView)
    ensures
        r.id@ == job.id@,
        r.title@ == or_text(job.title, "Queued recording"@),
        r.mode@ == job_mode_name(job.mode),
        r.state@ == job_state_name(job.state),
        r.stage == job.stage,
        r.output_path == job.output_path,
        r.audio_path@ == job.audio_path@,
        r.error == job.error,
        r.created_at@ == job.created_at@,
        r.started_at == job.started_at,
        r.finished_at == job.finished_at,
        r.word_count == job.word_count,
{
    let mode = match job.mode {
        CaptureMode::Meeting => "meeting",
        CaptureMode::QuickThought => "quick-thought",
        CaptureMode::Dictation => "dictation",
        CaptureMode::LiveTranscript => "live-transcript",
    };
    let state = match job.state {
        JobState::Queued => "queued",
        JobState::Transcribing => "transcribing",
        JobState::TranscriptOnly => "transcript-only",
        JobState::Diarizing => "diarizing",
        JobState::Summarizing => "summarizing",
        JobState::Saving => "saving",
        JobState::NeedsReview => "needs-review",
        JobState::Complete => "complete",
        JobState::Failed => "failed",
    };
    ProcessingJobView {
        id: job.id,
        title: or_string(job.title, "Queued recording"),
        mode: mode.to_owned(),
        state: state.to_owned(),
        stage: job.stage,
        output_path: job.output_path,
        audio_path: job.audio_path,
        error: job.error,
        created_at: job.created_at,
        started_at: job.started_at,
        finished_at: job.finished_at,
        word_count: job.word_count,
    }
}

/// The notice a job leaves: one needing review or failed keeps its raw
/// capture (a failed one points at its output when it has one); a
/// complete one with an output points at the saved markdown; other states
/// leave none.
pub open spec fn job_notice(job: ProcessingJob) -> Option<(Seq<char>, Seq<char>, Seq<char>, Seq<char>)> {
    match job.state {
        JobState::NeedsReview => Some(
            (
                "preserved-capture"@,
                or_text(job.title, "Recording needs review"@),
                job.audio_path@,
                or_text(job.error, "Transcript was marked as no speech. Raw capture preserved for retry."@),
            ),
        ),
        JobState::Complete => match job.output_path {
            Some(p) => Some(("saved"@, or_text(job.title, "Processed recording"@), p@, "Saved meeting markdown"@)),
            None => None,
        },
        JobState::Failed => Some(
            (
                "preserved-capture"@,
                or_text(job.title, "Processing failed"@),
                or_text(job.output_path, job.audio_path@),
                or_text(job.error, "Processing failed, recoverable capture preserved."@),
            ),
        ),
        _ => None,
    }
}

/// The view of a notice.
pub open spec fn notice_view(n: OutputNotice) -> (Seq<char>, Seq<char>, Seq<char>, Seq<char>) {
    (n.kind@, n.title@, n.path@, n.detail@)
}

/// The notice a job leaves; see `job_notice`.
pub fn output_notice_from_job(job: &ProcessingJob) -> (r: Option<OutputNotice>)
    ensures
        match job_notice(*job) {
            Some(v) => r matches Some(n) && notice_view(n) == v,
            None => r is None,
        },
{
    match job.state {
        JobState::NeedsReview => Some(
            OutputNotice {
                kind: String::from_str("preserved-capture"),
                title: or_string(job.title.clone(), "Recording needs review"),
                path: job.audio_path.clone(),
                detail: or_string(
                    job.error.clone(),
                    "Transcript was marked as no speech. Raw capture preserved for retry.",
                ),
            },
        ),
        JobState::Complete => match &job.output_path {
            Some(p) => Some(
                OutputNotice {
                    kind: String::from_str("saved"),
                    title: or_string(job.title.clone(), "Processed recording"),
                    path: p.clone(),
                    detail: String::from_str("Saved meeting markdown"),
                },
            ),
            None => None,
        },
        JobState::Failed => {
            let path = match &job.output_path {
                Some(p) => p.clone(),
                None => job.audio_path.clone(),
            };
            Some(
                OutputNotice {
                    kind: String::from_str("preserved-capture"),
                    title: or_string(job.title.clone(), "Processing failed"),
                    path,
                    detail: or_string(job.error.clone(), "Processing failed, recoverable capture preserved."),
                },
            )
        },
        _ => None,
    }
}

} // verus!
