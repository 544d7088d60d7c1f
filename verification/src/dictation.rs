//! The dictation session loop as a state machine: what each input (a stop
//! request, a recording starting, an audio chunk or its absence) does to
//! the session and which steps the caller performs, and what happens to a
//! finished utterance.

use crate::capture::DictationEvent;
use crate::numbers;
use crate::text;
use vstd::prelude::*;

verus! {

/// A UI notice the session emits.
#[derive(Debug, Clone, Copy, PartialEq, Eq, Structural)]
pub enum Notice {
    Listening,
    Accumulating,
    Processing,
    SilenceCountdown { total_ms: u64, remaining_ms: u64 },
    Cancelled,
    Yielded,
}

/// A step the caller performs, in order.
#[derive(Debug, Clone, Copy, PartialEq, Eq, Structural)]
pub enum DictationStep {
    /// Emit the notice.
    Notify(Notice),
    /// Feed the chunk's samples to the streaming transcriber (emitting
    /// any partial text it gives).
    FeedChunk,
    /// Finalize the streaming transcription and finish the utterance
    /// (emitting success and the result when there is text).
    FinalizeUtterance,
    /// Reset the streaming transcriber.
    ResetStreaming,
    /// End the session.
    Finish,
}

/// What one turn of the loop observed.
#[derive(Debug, Clone, Copy, PartialEq, Eq, Structural)]
pub enum AudioInput {
    /// The stop flag is set.
    Stopped,
    /// A recording has started.
    RecordingStarted,
    /// No chunk arrived within the wait.
    NoChunk,
    /// The audio stream closed.
    Disconnected,
    /// A chunk arrived: whether voice activity detection heard speech, and
    /// its number of samples.
    Chunk { speaking: bool, samples: u64 },
}

/// The state of a dictation session.
#[derive(Debug, Clone, Copy, PartialEq, Eq, Structural)]
pub struct DictationLoop {
    pub was_speaking: bool,
    pub has_spoken: bool,
    pub total_silence_ms: u64,
    pub utterance_samples: u64,
    pub max_utterance_samples: u64,
    pub silence_timeout_ms: u64,
}

/// Milliseconds of audio in one chunk.
pub const CHUNK_MS: u64 = 100;

/// Samples per second of dictation audio.
pub const SAMPLE_RATE: u64 = 16000;

/// The steps that close an utterance: processing, finalize, reset, and
/// back to listening.
pub open spec fn close_utterance() -> Seq<DictationStep> {
    seq![
        DictationStep::Notify(Notice::Processing),
        DictationStep::FinalizeUtterance,
        DictationStep::ResetStreaming,
        DictationStep::Notify(Notice::Listening),
    ]
}

/// The steps that end a session with `last`: an utterance in progress is
/// processed and finalized first.
pub open spec fn end_steps(s: DictationLoop, last: Notice) -> Seq<DictationStep> {
    let flush = if s.utterance_samples > 0 {
        seq![DictationStep::Notify(Notice::Processing), DictationStep::FinalizeUtterance]
    } else {
        seq![]
    };
    flush + seq![DictationStep::Notify(last), DictationStep::Finish]
}

/// The next state and steps of the session for `input`: a stop request
/// cancels and a recording yields (each finalizing speech in progress); a
/// closed stream ends at once; speech accumulates (noting the start of an
/// utterance and closing it at the size limit); silence closes an
/// utterance in progress, counts 100 ms, counts down once something was
/// said and ends the session when the silence timeout is reached.
pub open spec fn transition(s: DictationLoop, input: AudioInput) -> (DictationLoop, Seq<DictationStep>) {
    match input {
        AudioInput::Stopped => (s, end_steps(s, Notice::Cancelled)),
        AudioInput::RecordingStarted => (s, end_steps(s, Notice::Yielded)),
        AudioInput::NoChunk => (s, seq![]),
        AudioInput::Disconnected => (s, seq![DictationStep::Finish]),
        AudioInput::Chunk { speaking, samples } => if speaking {
            let start = if !s.was_speaking {
                seq![DictationStep::Notify(Notice::Accumulating)]
            } else {
                seq![]
            };
            let silence = if !s.was_speaking {
                0
            } else {
                s.total_silence_ms
            };
            let total = (s.utterance_samples + samples) as u64;
            if total >= s.max_utterance_samples {
                (
                    DictationLoop {
                        was_speaking: false,
                        has_spoken: true,
                        total_silence_ms: silence,
                        utterance_samples: 0,
                        ..s
                    },
                    start + seq![DictationStep::FeedChunk] + close_utterance(),
                )
            } else {
                (
                    DictationLoop {
                        was_speaking: true,
                        has_spoken: true,
                        total_silence_ms: silence,
                        utterance_samples: total,
                        ..s
                    },
                    start + seq![DictationStep::FeedChunk],
                )
            }
        } else {
            let closing = s.was_speaking && s.utterance_samples > 0;
            let first = if closing {
                close_utterance()
            } else {
                seq![]
            };
            let was = if closing {
                false
            } else {
                s.was_speaking
            };
            let utter = if closing {
                0
            } else {
                s.utterance_samples
            };
            let silence = ((if closing {
                0
            } else {
                s.total_silence_ms
            }) + CHUNK_MS) as u64;
            let waiting = s.has_spoken && !was;
            let countdown = if waiting && silence < s.silence_timeout_ms {
                seq![
                    DictationStep::Notify(
                        Notice::SilenceCountdown {
                            total_ms: s.silence_timeout_ms,
                            remaining_ms: (s.silence_timeout_ms - silence) as u64,
                        },
                    ),
                ]
            } else {
                seq![]
            };
            let finish = if waiting && silence >= s.silence_timeout_ms {
                seq![DictationStep::Finish]
            } else {
                seq![]
            };
            (
                DictationLoop {
                    was_speaking: was,
                    total_silence_ms: silence,
                    utterance_samples: utter,
                    ..s
                },
                first + countdown + finish,
            )
        },
    }
}

/// Whether the counters can take `input` without overflowing.
pub open spec fn fits(s: DictationLoop, input: AudioInput) -> bool {
    match input {
        AudioInput::Chunk { speaking, samples } => if speaking {
            s.utterance_samples + samples <= u64::MAX
        } else {
            s.total_silence_ms + CHUNK_MS <= u64::MAX
        },
        _ => true,
    }
}

impl DictationLoop {
    /// A fresh session with an utterance limit of `max_utterance_secs`
    /// seconds and the given silence timeout.
    pub fn new(max_utterance_secs: u64, silence_timeout_ms: u64) -> (r: Self)
        requires
            max_utterance_secs * SAMPLE_RATE <= u64::MAX,
        ensures
            r == (DictationLoop {
                was_speaking: false,
                has_spoken: false,
                total_silence_ms: 0,
                utterance_samples: 0,
                max_utterance_samples: (max_utterance_secs * SAMPLE_RATE) as u64,
                silence_timeout_ms,
            }),
    {
        DictationLoop {
            was_speaking: false,
            has_spoken: false,
            total_silence_ms: 0,
            utterance_samples: 0,
            max_utterance_samples: max_utterance_secs * SAMPLE_RATE,
            silence_timeout_ms,
        }
    }

    /// Takes one input; returns the steps to perform. See `transition`.
    pub fn step(&mut self, input: AudioInput) -> (r: Vec<DictationStep>)
        requires
            fits(*old(self), input),
        ensures
            (*final(self), r@) == transition(*old(self), input),
    {
        let mut steps: Vec<DictationStep> = Vec::new();
        match input {
            AudioInput::Stopped | AudioInput::RecordingStarted => {
                if self.utterance_samples > 0 {
                    steps.push(DictationStep::Notify(Notice::Processing));
                    steps.push(DictationStep::FinalizeUtterance);
                }
                let last = match input {
                    AudioInput::Stopped => Notice::Cancelled,
                    _ => Notice::Yielded,
                };
                steps.push(DictationStep::Notify(last));
                steps.push(DictationStep::Finish);
                proof {
                    let last_spec = if input is Stopped {
                        Notice::Cancelled
                    } else {
                        Notice::Yielded
                    };
                    assert(steps@ =~= end_steps(*old(self), last_spec));
                }
            },
            AudioInput::NoChunk => {
                assert(steps@ =~= seq![]);
            },
            AudioInput::Disconnected => {
                steps.push(DictationStep::Finish);
                assert(steps@ =~= seq![DictationStep::Finish]);
            },
            AudioInput::Chunk { speaking, samples } => {
                if speaking {
                    if !self.was_speaking {
                        steps.push(DictationStep::Notify(Notice::Accumulating));
                        self.total_silence_ms = 0;
                    }
                    self.was_speaking = true;
                    self.has_spoken = true;
                    self.utterance_samples = self.utterance_samples + samples;
                    steps.push(DictationStep::FeedChunk);
                    if self.utterance_samples >= self.max_utterance_samples {
                        steps.push(DictationStep::Notify(Notice::Processing));
                        steps.push(DictationStep::FinalizeUtterance);
                        steps.push(DictationStep::ResetStreaming);
                        self.utterance_samples = 0;
                        self.was_speaking = false;
                        steps.push(DictationStep::Notify(Notice::Listening));
                    }
                    proof {
                        let start = if !old(self).was_speaking {
                            seq![DictationStep::Notify(Notice::Accumulating)]
                        } else {
                            seq![]
                        };
                        if old(self).utterance_samples + samples >= old(self).max_utterance_samples {
                            assert(steps@ =~= start + seq![DictationStep::FeedChunk] + close_utterance());
                        } else {
                            assert(steps@ =~= start + seq![DictationStep::FeedChunk]);
                        }
                    }
                } else {
                    if self.was_speaking && self.utterance_samples > 0 {
                        steps.push(DictationStep::Notify(Notice::Processing));
                        steps.push(DictationStep::FinalizeUtterance);
                        steps.push(DictationStep::ResetStreaming);
                        self.utterance_samples = 0;
                        self.was_speaking = false;
                        self.total_silence_ms = 0;
                        steps.push(DictationStep::Notify(Notice::Listening));
                    }
                    let ghost first = steps@;
                    self.total_silence_ms = self.total_silence_ms + CHUNK_MS;
                    let waiting = self.has_spoken && !self.was_speaking;
                    if waiting && self.total_silence_ms < self.silence_timeout_ms {
                        let remaining = self.silence_timeout_ms - self.total_silence_ms;
                        steps.push(
                            DictationStep::Notify(
                                Notice::SilenceCountdown {
                                    total_ms: self.silence_timeout_ms,
                                    remaining_ms: remaining,
                                },
                            ),
                        );
                    }
                    let ghost counted = steps@;
                    if waiting && self.total_silence_ms >= self.silence_timeout_ms {
                        steps.push(DictationStep::Finish);
                    }
                    proof {
                        let closing = old(self).was_speaking && old(self).utterance_samples > 0;
                        if closing {
                            assert(first =~= close_utterance());
                        } else {
                            assert(first =~= seq![]);
                        }
                        let silence = self.total_silence_ms;
                        let countdown = if waiting && silence < self.silence_timeout_ms {
                            seq![
                                DictationStep::Notify(
                                    Notice::SilenceCountdown {
                                        total_ms: self.silence_timeout_ms,
                                        remaining_ms: (self.silence_timeout_ms - silence) as u64,
                                    },
                                ),
                            ]
                        } else {
                            seq![]
                        };
                        assert(counted =~= first + countdown);
                        if waiting && silence >= self.silence_timeout_ms {
                            assert(steps@ =~= first + countdown + seq![DictationStep::Finish]);
                        } else {
                            assert(steps@ =~= first + countdown + seq![]);
                        }
                    }
                }
            },
        }
        steps
    }
}

/// What happens to a finished utterance: its trimmed text, and whether it
/// goes to the clipboard, to a dictation file and to the daily note.
#[derive(Debug, Clone)]
pub struct UtterancePlan {
    pub text: String,
    pub to_clipboard: bool,
    pub to_file: bool,
    pub to_daily_note: bool,
}

/// The plan for an utterance: nothing for empty text; else the clipboard
/// for the `clipboard` destination or none, a file unless the destination
/// is `daily_note`, and the daily note when its log is on.
pub open spec fn utterance_plan_for(text: Seq<char>, destination: Seq<char>, daily_note_log: bool) -> Option<
    (Seq<char>, bool, bool, bool),
> {
    let t = text::trim(text);
    if t.len() == 0 {
        None
    } else {
        Some(
            (
                t,
                destination == "clipboard"@ || destination.len() == 0,
                destination != "daily_note"@,
                daily_note_log,
            ),
        )
    }
}

/// Plans a finished utterance; see `utterance_plan_for`.
pub fn utterance_plan(text: &str, destination: &str, daily_note_log: bool) -> (r: Option<UtterancePlan>)
    ensures
        match utterance_plan_for(text@, destination@, daily_note_log) {
            Some((t, c, f, d)) => r matches Some(p) && p.text@ == t && p.to_clipboard == c && p.to_file == f
                && p.to_daily_note == d,
            None => r is None,
        },
{
    let t = text::trim_chars(text::chars_of(text).as_slice());
    if t.len() == 0 {
        return None;
    }
    let d = text::chars_of(destination);
    Some(UtterancePlan {
        text: text::string_of(t.as_slice()),
        to_clipboard: text::eq_lit(d.as_slice(), "clipboard") || d.len() == 0,
        to_file: !text::eq_lit(d.as_slice(), "daily_note"),
        to_daily_note: daily_note_log,
    })
}

/// The duration label of a dictation of `secs` whole seconds: `"{s}s"`
/// under a minute, else `"{m}m {s}s"`.
pub open spec fn dictation_duration_text(secs: nat) -> Seq<char> {
    if secs < 60 {
        numbers::decimal(secs) + "s"@
    } else {
        numbers::decimal(secs / 60) + "m "@ + numbers::decimal(secs % 60) + "s"@
    }
}

/// The duration label of a dictation; see `dictation_duration_text`.
pub fn dictation_duration(secs: u32) -> (r: String)
    ensures
        r@ == dictation_duration_text(secs as nat),
{
    proof {
        reveal_strlit("");
        assert(""@ =~= Seq::<char>::empty());
    }
    if secs < 60 {
        let r = numbers::with_number("", secs as u64, "s");
        assert(r@ =~= numbers::decimal(secs as nat) + "s"@);
        r
    } else {
        let mut r = numbers::with_number("", (secs / 60) as u64, "m ");
        numbers::push_decimal(&mut r, (secs % 60) as u64);
        r.append("s");
        assert(r@ =~= numbers::decimal(secs as nat / 60) + "m "@ + numbers::decimal(secs as nat % 60) + "s"@);
        r
    }
}

/// The daily-note entry of a dictation at `time` (`HH:MM`).
pub fn dictation_note_entry(time: &str, text: &str) -> (r: String)
    ensures
        r@ == "\n### ~"@ + time@ + " - Dictation\n- "@ + text@ + "\n"@,
{
    numbers::concat5("\n### ~", time, " - Dictation\n- ", text, "\n")
}

/// The header of a new daily note for `date` (`YYYY-MM-DD`).
pub fn daily_note_header(date: &str) -> (r: String)
    ensures
        r@ == "# "@ + date@ + "\n"@,
{
    numbers::concat3("# ", date, "\n")
}

/// The UI event of a notice.
pub fn notice_event(n: Notice) -> (r: DictationEvent)
    ensures
        match n {
            Notice::Listening => r is Listening,
            Notice::Accumulating => r is Accumulating,
            Notice::Processing => r is Processing,
            Notice::SilenceCountdown { total_ms, remaining_ms } => r matches DictationEvent::SilenceCountdown {
                total_ms: t,
                remaining_ms: m,
            } && t == total_ms && m == remaining_ms,
            Notice::Cancelled => r is Cancelled,
            Notice::Yielded => r is Yielded,
        },
{
    match n {
        Notice::Listening => DictationEvent::Listening,
        Notice::Accumulating => DictationEvent::Accumulating,
        Notice::Processing => DictationEvent::Processing,
        Notice::SilenceCountdown { total_ms, remaining_ms } => DictationEvent::SilenceCountdown {
            total_ms,
            remaining_ms,
        },
        Notice::Cancelled => DictationEvent::Cancelled,
        Notice::Yielded => DictationEvent::Yielded,
    }
}

/// The session's utterance is empty or below its size limit.
pub open spec fn under_limit(s: DictationLoop) -> bool {
    s.utterance_samples == 0 || s.utterance_samples < s.max_utterance_samples
}

/// An utterance never grows past the size limit: a session below the
/// limit is below it after any input.
pub proof fn utterance_stays_under_limit(s: DictationLoop, input: AudioInput)
    requires
        under_limit(s),
        fits(s, input),
    ensures
        under_limit(transition(s, input).0),
{
}

/// Silence ends a session only after something was said: before any
/// speech, no chunk of silence finishes the session.
pub proof fn silence_ends_only_after_speech(s: DictationLoop, samples: u64)
    requires
        !s.has_spoken,
        fits(s, AudioInput::Chunk { speaking: false, samples }),
    ensures
        !transition(s, AudioInput::Chunk { speaking: false, samples }).1.contains(DictationStep::Finish),
{
    let steps = transition(s, AudioInput::Chunk { speaking: false, samples }).1;
    assert forall|i: int| 0 <= i < steps.len() implies steps[i] != DictationStep::Finish by {
        if s.was_speaking && s.utterance_samples > 0 {
            assert(steps =~= close_utterance());
        } else {
            assert(steps =~= seq![]);
        }
    }
}

/// Every utterance in progress is finalized when the session is stopped
/// or yields to a recording: the steps process and finalize it before the
/// session finishes.
pub proof fn stopping_finalizes_speech(s: DictationLoop, input: AudioInput)
    requires
        s.utterance_samples > 0,
        input is Stopped || input is RecordingStarted,
    ensures
        transition(s, input).1[0] == DictationStep::Notify(Notice::Processing),
        transition(s, input).1[1] == DictationStep::FinalizeUtterance,
        transition(s, input).1.last() == DictationStep::Finish,
{
}

/// Why a dictation may not start now: a recording holds the microphone,
/// or a dictation (here or in another process) is already running.
pub fn dictation_start_refusal(recording: bool, dictation_active: bool, dictation_pid_active: bool) -> (r: Option<
    String,
>)
    ensures
        recording ==> (r matches Some(m) && m@ == "Recording in progress — stop recording before dictating"@),
        !recording && (dictation_active || dictation_pid_active) ==> (r matches Some(m) && m@
            == "Dictation is already in progress."@),
        !recording && !dictation_active && !dictation_pid_active ==> r is None,
{
    if recording {
        Some(String::from_str("Recording in progress — stop recording before dictating"))
    } else if dictation_active || dictation_pid_active {
        Some(String::from_str("Dictation is already in progress."))
    } else {
        None
    }
}

/// The frontend's name for the state a dictation event puts the overlay
/// in; empty for a countdown, which is sent on its own.
pub open spec fn event_state(e: DictationEvent) -> Seq<char> {
    match e {
        DictationEvent::Listening => "listening"@,
        DictationEvent::Accumulating => "accumulating"@,
        DictationEvent::Processing => "processing"@,
        DictationEvent::PartialText(_) => "partial"@,
        DictationEvent::SilenceCountdown { .. } => ""@,
        DictationEvent::Success => "success"@,
        DictationEvent::Error => "error"@,
        DictationEvent::Cancelled => "cancelled"@,
        DictationEvent::Yielded => "yielded"@,
    }
}

/// The overlay state for an event; see `event_state`.
pub fn event_state_name(event: &DictationEvent) -> (r: &'static str)
    ensures
        r@ == event_state(*event),
{
    match event {
        DictationEvent::Listening => "listening",
        DictationEvent::Accumulating => "accumulating",
        DictationEvent::Processing => "processing",
        DictationEvent::PartialText(_) => "partial",
        DictationEvent::SilenceCountdown { .. } => "",
        DictationEvent::Success => "success",
        DictationEvent::Error => "error",
        DictationEvent::Cancelled => "cancelled",
        DictationEvent::Yielded => "yielded",
    }
}

/// Whether an event comes with the current audio level: while speech
/// accumulates or partial text arrives.
pub fn event_carries_level(event: &DictationEvent) -> (r: bool)
    ensures
        r == (*event is Accumulating || *event is PartialText),
{
    match event {
        DictationEvent::Accumulating | DictationEvent::PartialText(_) => true,
        _ => false,
    }
}

/// The overlay state once a session is over: `cancelled` after a normal
/// end, `error` after a failure.
pub fn session_end_state(ok: bool) -> (r: &'static str)
    ensures
        r@ == (if ok {
            "cancelled"@
        } else {
            "error"@
        }),
{
    if ok {
        "cancelled"
    } else {
        "error"
    }
}

} // verus!
