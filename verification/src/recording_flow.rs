//! Decisions around a recording session: whether it may start and by which
//! route, and the notices shown when a capture could not be processed but
//! its audio was preserved.

use crate::app_state::{self, OutputNotice};
use crate::call_capture::{self, CallCaptureAvailability};
use crate::numbers;
use crate::pid::{self, CaptureMode};
use crate::text;
use vstd::prelude::*;

verus! {

/// How a recording starts, or why it cannot.
#[derive(Debug, Clone)]
pub enum StartRoute {
    /// Not started: a notification with this title and message.
    Blocked { title: String, message: String },
    /// Through the native call helper.
    NativeCall,
    /// Through the local audio capture.
    LocalCapture,
}

/// What a preflight check found: its blocking reason, if any, and whether
/// it judged the intent to be a call.
#[derive(Debug, Clone)]
pub struct PreflightFinding {
    pub blocking_reason: Option<String>,
    pub intent_is_call: bool,
}

/// The route of a recording: a failed preflight blocks with its error; a
/// blocking reason blocks unless an explicitly requested call can start
/// natively; an explicit call with fresh native availability starts
/// natively when it can, else is blocked with the availability's detail;
/// anything else records locally. `native` is the fresh native call
/// availability, given exactly when a call was explicitly requested on
/// macOS.
pub open spec fn start_route(
    preflight: Result<(Option<Seq<char>>, bool), Seq<char>>,
    explicit_call: bool,
    native: Option<CallCaptureAvailability>,
) -> (Option<(Seq<char>, Seq<char>)>, bool) {
    let can_start = match native {
        Some(a) => call_capture::can_attempt(a),
        None => false,
    };
    match preflight {
        Err(e) => (Some(("Recording blocked"@, e)), false),
        Ok((blocking, intent_is_call)) => match blocking {
            Some(reason) if !(explicit_call && intent_is_call && can_start) => (
                Some(("Recording blocked"@, reason)),
                false,
            ),
            _ => if explicit_call && native is Some {
                if can_start {
                    (None, true)
                } else {
                    (Some(("Call capture unavailable"@, call_capture::detail_of(native->0))), false)
                }
            } else {
                (None, false)
            },
        },
    }
}

/// Whether `r` is the route `(blocked, native)` of `start_route`.
pub open spec fn route_is(r: StartRoute, route: (Option<(Seq<char>, Seq<char>)>, bool)) -> bool {
    match route.0 {
        Some((t, m)) => r matches StartRoute::Blocked { title, message } && title@ == t && message@ == m,
        None => if route.1 {
            r is NativeCall
        } else {
            r is LocalCapture
        },
    }
}

/// Chooses how a recording starts; see `start_route`.
pub fn choose_start_route(
    preflight: Result<PreflightFinding, String>,
    explicit_call_intent_requested: bool,
    native: Option<&CallCaptureAvailability>,
) -> (r: StartRoute)
    ensures
        route_is(
            r,
            start_route(
                match preflight {
                    Ok(p) => Ok((text::opt_string(p.blocking_reason), p.intent_is_call)),
                    Err(e) => Err(e@),
                },
                explicit_call_intent_requested,
                match native {
                    Some(a) => Some(*a),
                    None => None,
                },
            ),
        ),
{
    let finding = match preflight {
        Err(e) => {
            return StartRoute::Blocked { title: String::from_str("Recording blocked"), message: e };
        },
        Ok(p) => p,
    };
    let can_start = match native {
        Some(a) => a.can_attempt_capture(),
        None => false,
    };
    let reason = match &finding.blocking_reason {
        Some(r) => app_state::blocking_reason_for_start(
            Some(r.as_str()),
            finding.intent_is_call,
            can_start,
            explicit_call_intent_requested,
        ),
        None => None,
    };
    if let Some(message) = reason {
        return StartRoute::Blocked { title: String::from_str("Recording blocked"), message };
    }
    if explicit_call_intent_requested {
        match native {
            Some(a) => {
                if can_start {
                    return StartRoute::NativeCall;
                } else {
                    return StartRoute::Blocked {
                        title: String::from_str("Call capture unavailable"),
                        message: a.detail(),
                    };
                }
            },
            None => {},
        }
    }
    StartRoute::LocalCapture
}

/// A notice for a capture whose audio was preserved at `path`.
pub open spec fn preserved_notice(n: OutputNotice, title: Seq<char>, path: Seq<char>, detail: Seq<char>) -> bool {
    n.kind@ == "preserved-capture"@ && n.title@ == title && n.path@ == path && n.detail@ == detail
}

fn notice(title: &str, path: &str, detail: String) -> (r: OutputNotice)
    ensures
        preserved_notice(r, title@, path@, detail@),
{
    OutputNotice {
        kind: String::from_str("preserved-capture"),
        title: title.to_owned(),
        path: path.to_owned(),
        detail,
    }
}

/// The notice when a finished capture could not be queued for processing
/// but its raw audio was preserved at `path`.
pub fn queue_failure_notice(mode: CaptureMode, path: &str) -> (r: OutputNotice)
    ensures
        preserved_notice(
            r,
            "Raw capture preserved"@,
            path@,
            "Failed to queue background processing. Raw "@ + pid::mode_noun(mode) + " capture preserved."@,
        ),
{
    notice(
        "Raw capture preserved",
        path,
        numbers::concat3("Failed to queue background processing. Raw ", mode.noun(), " capture preserved."),
    )
}

/// What the user is told when recording in `mode` failed but audio was
/// preserved.
pub open spec fn capture_failure_detail(mode: CaptureMode) -> Seq<char> {
    match mode {
        CaptureMode::Meeting => "Recording failed before processing, but the captured meeting audio was preserved."@,
        CaptureMode::QuickThought => "Recording failed before processing, but the quick thought audio was preserved."@,
        CaptureMode::Dictation => "Dictation failed, but the audio was preserved."@,
        CaptureMode::LiveTranscript => "Live transcript failed, but the audio was preserved."@,
    }
}

/// The notice when recording failed but partial audio was preserved at
/// `path`.
pub fn capture_failure_notice(mode: CaptureMode, path: &str) -> (r: OutputNotice)
    ensures
        preserved_notice(r, "Partial capture preserved"@, path@, capture_failure_detail(mode)),
{
    let detail = match mode {
        CaptureMode::Meeting => "Recording failed before processing, but the captured meeting audio was preserved.",
        CaptureMode::QuickThought => "Recording failed before processing, but the quick thought audio was preserved.",
        CaptureMode::Dictation => "Dictation failed, but the audio was preserved.",
        CaptureMode::LiveTranscript => "Live transcript failed, but the audio was preserved.",
    };
    notice("Partial capture preserved", path, detail.to_owned())
}

/// The notice when the native call helper ended early but its raw output
/// was preserved at `path`.
pub fn native_capture_ended_notice(path: &str) -> (r: OutputNotice)
    ensures
        preserved_notice(
            r,
            "Native call capture failed"@,
            path@,
            "ScreenCaptureKit capture ended early, but the raw output was preserved."@,
        ),
{
    notice(
        "Native call capture failed",
        path,
        String::from_str("ScreenCaptureKit capture ended early, but the raw output was preserved."),
    )
}

/// The notice when stopping the native call capture failed with `error`
/// but its output was preserved at `path`.
pub fn native_stop_failure_notice(path: &str, error: &str) -> (r: OutputNotice)
    ensures
        preserved_notice(r, "Native call capture preserved"@, path@, "Stopping native call capture failed: "@ + error@),
{
    notice("Native call capture preserved", path, numbers::concat2("Stopping native call capture failed: ", error))
}

/// The notice when a native call capture could not be queued (`error`)
/// but its output was preserved at `path`.
pub fn native_queue_failure_notice(path: &str, error: &str) -> (r: OutputNotice)
    ensures
        preserved_notice(
            r,
            "Native call capture preserved"@,
            path@,
            "Failed to queue native call capture for processing: "@ + error@,
        ),
{
    notice(
        "Native call capture preserved",
        path,
        numbers::concat2("Failed to queue native call capture for processing: ", error),
    )
}

/// How long a start request from another process waits for the recording
/// to become active, in milliseconds.
pub const ACTIVATION_WAIT_MS: u64 = 12_000;

/// What a wait for a requested recording decides at one check.
#[derive(Debug, Clone, Copy, PartialEq, Eq, Structural)]
pub enum ActivationCheck {
    /// The recording is active: the request is accepted.
    Accepted,
    /// The start ended without recording, or the wait ran out: refused.
    Refused,
    /// Still starting: check again.
    Wait,
}

/// One check `elapsed_ms` into the wait: recording means accepted; after
/// the wait, refused; a start that is no longer under way is refused;
/// otherwise wait.
pub fn activation_check(elapsed_ms: u64, recording: bool, starting: bool) -> (r: ActivationCheck)
    ensures
        r == (if elapsed_ms >= ACTIVATION_WAIT_MS {
            ActivationCheck::Refused
        } else if recording {
            ActivationCheck::Accepted
        } else if !starting {
            ActivationCheck::Refused
        } else {
            ActivationCheck::Wait
        }),
{
    if elapsed_ms >= ACTIVATION_WAIT_MS {
        ActivationCheck::Refused
    } else if recording {
        ActivationCheck::Accepted
    } else if !starting {
        ActivationCheck::Refused
    } else {
        ActivationCheck::Wait
    }
}

/// The reason given when a requested recording did not become active: the
/// latest notice's detail when it is not blank, else a generic reason.
pub fn activation_detail(latest_notice: Option<&OutputNotice>) -> (r: String)
    ensures
        r@ == match latest_notice {
            Some(n) => if text::trim(n.detail@).len() > 0 {
                n.detail@
            } else {
                "Minutes desktop app did not confirm that recording became active."@
            },
            None => "Minutes desktop app did not confirm that recording became active."@,
        },
{
    match latest_notice {
        Some(n) => {
            if text::trim_chars(text::chars_of(n.detail.as_str()).as_slice()).len() > 0 {
                return n.detail.clone();
            }
        },
        None => {},
    }
    String::from_str("Minutes desktop app did not confirm that recording became active.")
}

/// The detail of an accepted start request.
pub fn activation_accepted_detail() -> (r: String)
    ensures
        r@ == "Recording request accepted by the running Minutes desktop app."@,
{
    String::from_str("Recording request accepted by the running Minutes desktop app.")
}

/// What a recording is for, when the caller says so.
#[derive(PartialEq, Eq, Structural, Clone, Copy, Debug)]
pub enum RecordingIntent {
    Memo,
    Room,
    Call,
}

/// The capture mode a start request names: `meeting` when it names none.
pub open spec fn capture_mode_named(name: Seq<char>) -> Option<CaptureMode> {
    if name == "meeting"@ {
        Some(CaptureMode::Meeting)
    } else if name == "quick-thought"@ {
        Some(CaptureMode::QuickThought)
    } else {
        None
    }
}

/// Reads the mode of a start request; the default is `meeting`, and any
/// name but `meeting` and `quick-thought` is refused with a message that
/// repeats it.
pub fn parse_capture_mode(mode: Option<&str>) -> (r: Result<CaptureMode, String>)
    ensures
        ({
            let name = match mode {
                Some(m) => m@,
                None => "meeting"@,
            };
            match capture_mode_named(name) {
                Some(m) => r == Ok::<CaptureMode, String>(m),
                None => r matches Err(e) && e@ == "Unsupported recording mode: "@ + name
                    + ". Use 'meeting' or 'quick-thought'."@,
            }
        }),
{
    let name = match mode {
        Some(m) => m,
        None => "meeting",
    };
    let cs = text::chars_of(name);
    proof {
        reveal_strlit("meeting");
        reveal_strlit("quick-thought");
    }
    if text::eq_lit(cs.as_slice(), "meeting") {
        Ok(CaptureMode::Meeting)
    } else if text::eq_lit(cs.as_slice(), "quick-thought") {
        Ok(CaptureMode::QuickThought)
    } else {
        Err(numbers::concat3("Unsupported recording mode: ", name, ". Use 'meeting' or 'quick-thought'."))
    }
}

/// The intent a start request names: `auto` leaves it to detection.
pub open spec fn intent_named(name: Seq<char>) -> Option<Option<RecordingIntent>> {
    if name == "auto"@ {
        Some(None)
    } else if name == "memo"@ {
        Some(Some(RecordingIntent::Memo))
    } else if name == "room"@ {
        Some(Some(RecordingIntent::Room))
    } else if name == "call"@ {
        Some(Some(RecordingIntent::Call))
    } else {
        None
    }
}

/// Reads the intent of a start request; the default is `auto` (none), and
/// any other name but `memo`, `room` and `call` is refused with a message
/// that repeats it.
pub fn parse_recording_intent(intent: Option<&str>) -> (r: Result<Option<RecordingIntent>, String>)
    ensures
        ({
            let name = match intent {
                Some(m) => m@,
                None => "auto"@,
            };
            match intent_named(name) {
                Some(i) => r == Ok::<Option<RecordingIntent>, String>(i),
                None => r matches Err(e) && e@ == "Unsupported recording intent: "@ + name
                    + ". Use auto, memo, room, or call."@,
            }
        }),
{
    let name = match intent {
        Some(m) => m,
        None => "auto",
    };
    let cs = text::chars_of(name);
    proof {
        reveal_strlit("auto");
        reveal_strlit("memo");
        reveal_strlit("room");
        reveal_strlit("call");
    }
    if text::eq_lit(cs.as_slice(), "auto") {
        Ok(None)
    } else if text::eq_lit(cs.as_slice(), "memo") {
        Ok(Some(RecordingIntent::Memo))
    } else if text::eq_lit(cs.as_slice(), "room") {
        Ok(Some(RecordingIntent::Room))
    } else if text::eq_lit(cs.as_slice(), "call") {
        Ok(Some(RecordingIntent::Call))
    } else {
        Err(numbers::concat3("Unsupported recording intent: ", name, ". Use auto, memo, room, or call."))
    }
}

/// How a stop request reaches the recorder.
#[derive(PartialEq, Eq, Structural, Clone, Copy, Debug)]
pub enum StopRoute {
    /// This process records: raise its own stop flag.
    OwnSession,
    /// Another process records and belongs to the desktop app: write the
    /// stop sentinel only.
    SentinelOnly,
    /// Another process records: write the stop sentinel and send it
    /// SIGTERM.
    SentinelAndSignal(u32),
    /// Nothing records: the request fails with "Not recording".
    NotRecording,
}

/// The route of a stop request, given the recorder's pid (if any), this
/// process's pid, and whether the desktop app owns the recorder.
pub fn stop_route(recorder: Option<u32>, own_pid: u32, desktop_owns: bool) -> (r: StopRoute)
    ensures
        r == (match recorder {
            None => StopRoute::NotRecording,
            Some(pid) => if pid == own_pid {
                StopRoute::OwnSession
            } else if desktop_owns {
                StopRoute::SentinelOnly
            } else {
                StopRoute::SentinelAndSignal(pid)
            },
        }),
{
    match recorder {
        None => StopRoute::NotRecording,
        Some(pid) => if pid == own_pid {
            StopRoute::OwnSession
        } else if desktop_owns {
            StopRoute::SentinelOnly
        } else {
            StopRoute::SentinelAndSignal(pid)
        },
    }
}

/// Why a new recording may not be launched: one is already running or
/// starting, or a live transcript is in progress.
pub fn recording_launch_refusal(recording: bool, starting: bool, live_transcript: bool) -> (r: Option<String>)
    ensures
        (recording || starting) ==> (r matches Some(m) && m@ == "Already recording"@),
        !(recording || starting) && live_transcript ==> (r matches Some(m) && m@
            == "Live transcript in progress — stop it first"@),
        !(recording || starting) && !live_transcript ==> r is None,
{
    if recording || starting {
        Some(String::from_str("Already recording"))
    } else if live_transcript {
        Some(String::from_str("Live transcript in progress — stop it first"))
    } else {
        None
    }
}

} // verus!
