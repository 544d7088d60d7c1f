//! Talking to the native call helper: whether this macOS can run it, the
//! arguments it is given, the tail of its error output that is kept, how
//! its output lines are read (a readiness line, then health and stem
//! events), and what its readiness answer means for the start.

use crate::call_capture::{self, CallSourceHealth, StemPaths};
use crate::numbers;
use crate::text;
use vstd::prelude::*;

verus! {

/// The oldest macOS major version with native call capture.
pub const MIN_MACOS_MAJOR: u32 = 15;

/// How many of the helper's error lines are kept.
pub const STDERR_TAIL: usize = 8;

/// Refuses macOS versions older than 15; an unknown version passes.
pub fn macos_version_gate(major: Option<u32>) -> (r: Result<(), String>)
    ensures
        match major {
            Some(m) => if m < MIN_MACOS_MAJOR {
                r matches Err(e) && e@ == "native call capture requires macOS 15 or newer (found macOS "@
                    + numbers::decimal(m as nat) + ")"@
            } else {
                r is Ok
            },
            None => r is Ok,
        },
{
    match major {
        Some(m) => {
            if m < MIN_MACOS_MAJOR {
                Err(numbers::with_number(
                    "native call capture requires macOS 15 or newer (found macOS ",
                    m as u64,
                    ")",
                ))
            } else {
                Ok(())
            }
        },
        None => Ok(()),
    }
}

/// The helper's microphone arguments: `--microphone-name` and the trimmed
/// preferred name, when it is not blank.
pub fn microphone_args(preferred: Option<&str>) -> (r: Vec<String>)
    ensures
        match preferred {
            Some(p) => if text::trim(p@).len() > 0 {
                text::string_views(r@) == seq!["--microphone-name"@, text::trim(p@)]
            } else {
                r@.len() == 0
            },
            None => r@.len() == 0,
        },
{
    let mut r: Vec<String> = Vec::new();
    match preferred {
        Some(p) => {
            let t = text::trim_chars(text::chars_of(p).as_slice());
            if t.len() > 0 {
                r.push(String::from_str("--microphone-name"));
                r.push(text::string_of(t.as_slice()));
                assert(text::string_views(r@) =~= seq!["--microphone-name"@, text::trim(p@)]);
            }
        },
        None => {},
    }
    r
}

/// The kept error lines after reading `raw`: a blank line changes nothing;
/// otherwise its trimmed text is added and only the last eight are kept.
pub open spec fn stderr_after(lines: Seq<Seq<char>>, raw: Seq<char>) -> Seq<Seq<char>> {
    let t = text::trim(raw);
    if t.len() == 0 {
        lines
    } else {
        let all = lines.push(t);
        if all.len() > STDERR_TAIL {
            all.skip(all.len() - STDERR_TAIL)
        } else {
            all
        }
    }
}

/// Records one line of the helper's error output; see `stderr_after`.
pub fn push_stderr_line(lines: &mut Vec<String>, raw: &str)
    ensures
        text::string_views(final(lines)@) == stderr_after(text::string_views(old(lines)@), raw@),
{
    let t = text::trim_chars(text::chars_of(raw).as_slice());
    if t.len() == 0 {
        return;
    }
    let ghost before = text::string_views(lines@);
    lines.push(text::string_of(t.as_slice()));
    let ghost all = before.push(text::trim(raw@));
    assert(text::string_views(lines@) =~= all);
    if lines.len() > STDERR_TAIL {
        let drain = lines.len() - STDERR_TAIL;
        let mut kept: Vec<String> = Vec::new();
        let mut i: usize = drain;
        while i < lines.len()
            invariant
                drain <= i <= lines@.len(),
                text::string_views(lines@) == all,
                text::string_views(kept@) == all.subrange(drain as int, i as int),
            decreases lines@.len() - i,
        {
            let ghost kb = text::string_views(kept@);
            kept.push(lines[i].clone());
            assert(text::string_views(kept@) =~= kb.push(all[i as int]));
            assert(all.subrange(drain as int, i + 1) =~= all.subrange(drain as int, i as int).push(all[i as int]));
            i = i + 1;
        }
        *lines = kept;
        assert(all.subrange(drain as int, all.len() as int) =~= all.skip(all.len() - STDERR_TAIL));
    }
}

/// What a line of the helper's standard output is.
#[derive(Debug, Clone)]
pub enum StdoutLine {
    /// A blank line.
    Skip,
    /// The first non-blank line: the readiness answer (trimmed).
    Ready(String),
    /// A later line: an event to parse (trimmed).
    Event(String),
}

/// Reading the helper's standard output: whether the readiness answer was
/// passed on yet.
#[derive(Debug, Clone, Copy, PartialEq, Eq, Structural)]
pub struct HelperStdout {
    pub ready_sent: bool,
}

impl HelperStdout {
    /// Before any line.
    pub fn new() -> (r: Self)
        ensures
            !r.ready_sent,
    {
        HelperStdout { ready_sent: false }
    }

    /// Reads one line: blank lines are skipped, the first other line is the
    /// readiness answer and later ones are events.
    pub fn on_line(&mut self, raw: &str) -> (r: StdoutLine)
        ensures
            text::trim(raw@).len() == 0 ==> r is Skip && final(self).ready_sent == old(self).ready_sent,
            text::trim(raw@).len() > 0 && !old(self).ready_sent ==> (r matches StdoutLine::Ready(l) && l@
                == text::trim(raw@) && final(self).ready_sent),
            text::trim(raw@).len() > 0 && old(self).ready_sent ==> (r matches StdoutLine::Event(l) && l@
                == text::trim(raw@) && final(self).ready_sent),
    {
        let t = text::trim_chars(text::chars_of(raw).as_slice());
        if t.len() == 0 {
            return StdoutLine::Skip;
        }
        let line = text::string_of(t.as_slice());
        if !self.ready_sent {
            self.ready_sent = true;
            StdoutLine::Ready(line)
        } else {
            StdoutLine::Event(line)
        }
    }

    /// The failure to report when the output ends (after a read error when
    /// one is given): none once readiness was passed on; else the helper's
    /// failure message.
    pub fn on_end(&self, read_error: Option<&str>, stderr_lines: &Vec<String>) -> (r: Option<String>)
        ensures
            self.ready_sent ==> r is None,
            !self.ready_sent ==> (r matches Some(m) && m@ == call_capture::failure_message(
                match read_error {
                    Some(e) => "failed to read native call helper output: "@ + e@,
                    None => "native call helper exited before signaling readiness"@,
                },
                text::string_views(stderr_lines@),
            )),
    {
        if self.ready_sent {
            return None;
        }
        let base = match read_error {
            Some(e) => numbers::concat2("failed to read native call helper output: ", e),
            None => String::from_str("native call helper exited before signaling readiness"),
        };
        Some(call_capture::helper_failure_message(base.as_str(), stderr_lines))
    }
}

/// An event line of the helper, with the fields it carries as JSON (none
/// where a field is missing or of another kind).
#[derive(Debug, Clone)]
pub enum HelperMessage {
    Health {
        mic_live: Option<bool>,
        call_audio_live: Option<bool>,
        mic_level: Option<u64>,
        call_audio_level: Option<u64>,
    },
    Stems { voice_stem: Option<String>, system_stem: Option<String> },
    /// Another event, or a line that is not a JSON object with an event.
    Other,
}

/// The string that the JSON object `line` holds under `key`: none when the
/// line is not JSON, not an object, lacks the key, or holds something else
/// there (`serde_json::from_str::<Value>`, `get`, `as_str`).
pub uninterp spec fn json_str_field(line: Seq<char>, key: Seq<char>) -> Option<Seq<char>>;

/// The boolean that the JSON object `line` holds under `key`, likewise
/// (`as_bool`).
pub uninterp spec fn json_bool_field(line: Seq<char>, key: Seq<char>) -> Option<bool>;

/// The unsigned integer that the JSON object `line` holds under `key`,
/// likewise (`as_u64`).
pub uninterp spec fn json_u64_field(line: Seq<char>, key: Seq<char>) -> Option<u64>;

/// `serde_json`: parses `line` as a JSON value and reads the string under
/// `key`. Trusted: the result is `json_str_field(line, key)`, a function of
/// the two texts alone.
#[verifier::external_body]
fn json_str_field_of(line: &str, key: &str) -> (r: Option<String>)
    ensures
        text::opt_string(r) == json_str_field(line@, key@),
{
    serde_json::from_str::<serde_json::Value>(line).ok().and_then(|v| v.get(key).and_then(|f| f.as_str().map(String::from)))
}

/// `serde_json`: parses `line` as a JSON value and reads the boolean under
/// `key`. Trusted: the result is `json_bool_field(line, key)`.
#[verifier::external_body]
fn json_bool_field_of(line: &str, key: &str) -> (r: Option<bool>)
    ensures
        r == json_bool_field(line@, key@),
{
    serde_json::from_str::<serde_json::Value>(line).ok().and_then(|v| v.get(key).and_then(|f| f.as_bool()))
}

/// `serde_json`: parses `line` as a JSON value and reads the unsigned
/// integer under `key`. Trusted: the result is `json_u64_field(line, key)`.
#[verifier::external_body]
fn json_u64_field_of(line: &str, key: &str) -> (r: Option<u64>)
    ensures
        r == json_u64_field(line@, key@),
{
    serde_json::from_str::<serde_json::Value>(line).ok().and_then(|v| v.get(key).and_then(|f| f.as_u64()))
}

/// A helper event as plain values.
pub ghost enum MessageView {
    Health {
        mic_live: Option<bool>,
        call_audio_live: Option<bool>,
        mic_level: Option<u64>,
        call_audio_level: Option<u64>,
    },
    Stems { voice_stem: Option<Seq<char>>, system_stem: Option<Seq<char>> },
    Other,
}

/// The plain values of a helper event.
pub open spec fn message_view(m: HelperMessage) -> MessageView {
    match m {
        HelperMessage::Health { mic_live, call_audio_live, mic_level, call_audio_level } => MessageView::Health {
            mic_live,
            call_audio_live,
            mic_level,
            call_audio_level,
        },
        HelperMessage::Stems { voice_stem, system_stem } => MessageView::Stems {
            voice_stem: text::opt_string(voice_stem),
            system_stem: text::opt_string(system_stem),
        },
        HelperMessage::Other => MessageView::Other,
    }
}

/// The event an output line of the helper reports: by its `event` field,
/// a health report with its liveness flags and levels, the stem paths, or
/// anything else.
pub open spec fn helper_message_of(line: Seq<char>) -> MessageView {
    match json_str_field(line, "event"@) {
        Some(e) => if e == "health"@ {
            MessageView::Health {
                mic_live: json_bool_field(line, "mic_live"@),
                call_audio_live: json_bool_field(line, "call_audio_live"@),
                mic_level: json_u64_field(line, "mic_level"@),
                call_audio_level: json_u64_field(line, "call_audio_level"@),
            }
        } else if e == "stems"@ {
            MessageView::Stems {
                voice_stem: json_str_field(line, "voice_stem"@),
                system_stem: json_str_field(line, "system_stem"@),
            }
        } else {
            MessageView::Other
        },
        None => MessageView::Other,
    }
}

/// Reads one event line of the helper; see `helper_message_of`.
pub fn parse_helper_message(line: &str) -> (r: HelperMessage)
    ensures
        message_view(r) == helper_message_of(line@),
{
    match json_str_field_of(line, "event") {
        Some(e) => {
            let ev = text::chars_of(e.as_str());
            if text::eq_lit(ev.as_slice(), "health") {
                HelperMessage::Health {
                    mic_live: json_bool_field_of(line, "mic_live"),
                    call_audio_live: json_bool_field_of(line, "call_audio_live"),
                    mic_level: json_u64_field_of(line, "mic_level"),
                    call_audio_level: json_u64_field_of(line, "call_audio_level"),
                }
            } else if text::eq_lit(ev.as_slice(), "stems") {
                HelperMessage::Stems {
                    voice_stem: json_str_field_of(line, "voice_stem"),
                    system_stem: json_str_field_of(line, "system_stem"),
                }
            } else {
                HelperMessage::Other
            }
        },
        None => HelperMessage::Other,
    }
}

/// A level as a `u32`: its low 32 bits.
pub open spec fn level_of(v: Option<u64>) -> u32 {
    match v {
        Some(x) => (x % 0x1_0000_0000) as u32,
        None => 0,
    }
}

fn level(v: Option<u64>) -> (r: u32)
    ensures
        r == level_of(v),
{
    match v {
        Some(x) => (x % 0x1_0000_0000) as u32,
        None => 0,
    }
}

/// Applies a helper event at time `now`: a health event sets both sources'
/// liveness (false when missing) and levels (0 when missing) and the time;
/// a stems event with both paths non-empty records them; anything else
/// changes nothing.
pub fn apply_helper_message(
    health: &mut CallSourceHealth,
    stems: &mut Option<StemPaths>,
    message: HelperMessage,
    now: String,
)
    ensures
        match message {
            HelperMessage::Health { mic_live, call_audio_live, mic_level, call_audio_level } => {
                &&& final(health).mic_live == (mic_live == Some(true))
                &&& final(health).call_audio_live == (call_audio_live == Some(true))
                &&& final(health).mic_level == level_of(mic_level)
                &&& final(health).call_audio_level == level_of(call_audio_level)
                &&& final(health).last_update@ == now@
                &&& final(health).backend@ == old(health).backend@
                &&& *final(stems) == *old(stems)
            },
            HelperMessage::Stems { voice_stem, system_stem } => {
                &&& *final(health) == *old(health)
                &&& match (voice_stem, system_stem) {
                    (Some(v), Some(s)) => if v@.len() > 0 && s@.len() > 0 {
                        *final(stems) matches Some(p) && p.voice@ == v@ && p.system@ == s@
                    } else {
                        *final(stems) == *old(stems)
                    },
                    _ => *final(stems) == *old(stems),
                }
            },
            HelperMessage::Other => *final(health) == *old(health) && *final(stems) == *old(stems),
        },
{
    match message {
        HelperMessage::Health { mic_live, call_audio_live, mic_level, call_audio_level } => {
            health.mic_live = match mic_live {
                Some(b) => b,
                None => false,
            };
            health.call_audio_live = match call_audio_live {
                Some(b) => b,
                None => false,
            };
            health.mic_level = level(mic_level);
            health.call_audio_level = level(call_audio_level);
            health.last_update = now;
        },
        HelperMessage::Stems { voice_stem, system_stem } => {
            match (voice_stem, system_stem) {
                (Some(v), Some(s)) => {
                    if text::chars_of(v.as_str()).len() > 0 && text::chars_of(s.as_str()).len() > 0 {
                        *stems = Some(StemPaths { voice: v, system: s });
                    }
                },
                _ => {},
            }
        },
        HelperMessage::Other => {},
    }
}

/// What the helper's readiness answer means for the start: `"ready"`
/// starts the capture; another answer is unexpected; a failure reported
/// while reading is passed on; no answer in time is a timeout. A failure or
/// timeout is noted (it may show Screen Recording needs System Settings).
/// `received` is none on timeout.
pub fn readiness_outcome(
    received: Option<Result<String, String>>,
    stderr_lines: &Vec<String>,
    settings_required: &mut bool,
) -> (r: Result<(), String>)
    ensures
        match received {
            Some(Ok(line)) => {
                &&& (line@ == "ready"@ ==> r is Ok)
                &&& (line@ != "ready"@ ==> (r matches Err(e) && e@
                    == "native call helper returned unexpected readiness output: "@ + line@))
                &&& *final(settings_required) == *old(settings_required)
            },
            Some(Err(error)) => {
                &&& r matches Err(e) && e@ == error@
                &&& *final(settings_required) == (*old(settings_required) || text::contains(
                    error@,
                    call_capture::screen_recording_failure_snippet(),
                ))
            },
            None => {
                let m = call_capture::failure_message(
                    "native call helper timed out waiting for ScreenCaptureKit readiness"@,
                    text::string_views(stderr_lines@),
                );
                &&& r matches Err(e) && e@ == m
                &&& *final(settings_required) == (*old(settings_required) || text::contains(
                    m,
                    call_capture::screen_recording_failure_snippet(),
                ))
            },
        },
{
    match received {
        Some(Ok(line)) => {
            if text::eq_lit(text::chars_of(line.as_str()).as_slice(), "ready") {
                Ok(())
            } else {
                Err(numbers::concat2("native call helper returned unexpected readiness output: ", line.as_str()))
            }
        },
        Some(Err(error)) => {
            call_capture::note_start_failure(error.as_str(), settings_required);
            Err(error)
        },
        None => {
            let error = call_capture::helper_failure_message(
                "native call helper timed out waiting for ScreenCaptureKit readiness",
                stderr_lines,
            );
            call_capture::note_start_failure(error.as_str(), settings_required);
            Err(error)
        },
    }
}

/// What one poll of a running native call capture decides.
#[derive(Debug, Clone, Copy, PartialEq, Eq, Structural)]
pub enum CapturePoll {
    /// Keep capturing.
    Continue,
    /// Stop the capture and process it.
    Stop,
    /// The helper ended with a failure: preserve what it wrote.
    Failed,
}

/// One poll: a stop sentinel stops; else a helper that exited stops when
/// it succeeded and has failed otherwise; a running helper continues.
/// `exited` is the helper's exit (whether it succeeded), none while it
/// runs.
pub fn capture_poll(stop_sentinel: bool, exited: Option<bool>) -> (r: CapturePoll)
    ensures
        r == (if stop_sentinel {
            CapturePoll::Stop
        } else {
            match exited {
                Some(true) => CapturePoll::Stop,
                Some(false) => CapturePoll::Failed,
                None => CapturePoll::Continue,
            }
        }),
{
    if stop_sentinel {
        return CapturePoll::Stop;
    }
    match exited {
        Some(true) => CapturePoll::Stop,
        Some(false) => CapturePoll::Failed,
        None => CapturePoll::Continue,
    }
}

} // verus!
