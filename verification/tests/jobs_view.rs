use minutes_core::app_state::OutputNotice;
use minutes_core::jobs_view::{output_notice_from_job, processing_job_view, JobState, ProcessingJob};
use minutes_core::pid::CaptureMode;
use minutes_core::recording_flow::{
    activation_accepted_detail, activation_check, activation_detail, ActivationCheck,
};

fn job(state: JobState) -> ProcessingJob {
    ProcessingJob {
        id: "job-1".to_string(),
        title: None,
        mode: CaptureMode::QuickThought,
        state,
        stage: Some("Transcribing".to_string()),
        output_path: None,
        audio_path: "/jobs/job-1.wav".to_string(),
        error: None,
        created_at: "2026-04-08T09:30:00+00:00".to_string(),
        started_at: None,
        finished_at: None,
        word_count: Some(12),
    }
}

#[test]
fn job_rows_name_mode_and_state() {
    let row = processing_job_view(job(JobState::TranscriptOnly));
    assert_eq!(row.title, "Queued recording");
    assert_eq!(row.mode, "quick-thought");
    assert_eq!(row.state, "transcript-only");
    assert_eq!(row.stage.as_deref(), Some("Transcribing"));
    assert_eq!(row.word_count, Some(12));
    let mut titled = job(JobState::NeedsReview);
    titled.title = Some("Standup".to_string());
    titled.mode = CaptureMode::LiveTranscript;
    let row = processing_job_view(titled);
    assert_eq!(row.title, "Standup");
    assert_eq!(row.mode, "live-transcript");
    assert_eq!(row.state, "needs-review");
}

#[test]
fn needs_review_jobs_surface_as_preserved_capture_notices() {
    let job = ProcessingJob {
        id: "job-review".into(),
        title: Some("Interview".into()),
        mode: CaptureMode::Meeting,
        state: JobState::NeedsReview,
        stage: None,
        output_path: Some("/tmp/interview.md".into()),
        audio_path: "/tmp/interview.wav".into(),
        error: Some("silence strip removed ALL audio".into()),
        created_at: "2026-04-08T09:30:00+00:00".into(),
        started_at: None,
        finished_at: Some("2026-04-08T09:31:00+00:00".into()),
        word_count: Some(0),
    };

    let notice = output_notice_from_job(&job).expect("needs-review notice");
    assert_eq!(notice.kind, "preserved-capture");
    assert_eq!(notice.path, "/tmp/interview.wav");
    assert!(notice.detail.contains("silence strip"));
}

#[test]
fn needs_review_notice_defaults() {
    let notice = output_notice_from_job(&job(JobState::NeedsReview)).unwrap();
    assert_eq!(notice.kind, "preserved-capture");
    assert_eq!(notice.title, "Recording needs review");
    assert_eq!(notice.path, "/jobs/job-1.wav");
    assert_eq!(
        notice.detail,
        "Transcript was marked as no speech. Raw capture preserved for retry."
    );
}

#[test]
fn finished_jobs_leave_notices() {
    assert!(output_notice_from_job(&job(JobState::Complete)).is_none());
    let mut done = job(JobState::Complete);
    done.output_path = Some("/m/standup.md".to_string());
    let n = output_notice_from_job(&done).unwrap();
    assert_eq!((n.kind.as_str(), n.title.as_str()), ("saved", "Processed recording"));
    assert_eq!(n.detail, "Saved meeting markdown");
    let mut failed = job(JobState::Failed);
    failed.error = Some("model missing".to_string());
    let n = output_notice_from_job(&failed).unwrap();
    assert_eq!(n.path, "/jobs/job-1.wav");
    assert_eq!(n.title, "Processing failed");
    assert_eq!(n.detail, "model missing");
    assert!(output_notice_from_job(&job(JobState::Saving)).is_none());
}

#[test]
fn start_requests_wait_for_activation() {
    assert_eq!(activation_check(0, true, true), ActivationCheck::Accepted);
    assert_eq!(activation_check(100, false, true), ActivationCheck::Wait);
    assert_eq!(activation_check(100, false, false), ActivationCheck::Refused);
    assert_eq!(activation_check(12_000, true, true), ActivationCheck::Refused);
    let blank = OutputNotice {
        kind: "error".into(),
        title: "x".into(),
        path: String::new(),
        detail: "  ".into(),
    };
    assert_eq!(
        activation_detail(Some(&blank)),
        "Minutes desktop app did not confirm that recording became active."
    );
    let real = OutputNotice { detail: "Mic busy".into(), ..blank.clone() };
    assert_eq!(activation_detail(Some(&real)), "Mic busy");
    assert_eq!(
        activation_accepted_detail(),
        "Recording request accepted by the running Minutes desktop app."
    );
}
