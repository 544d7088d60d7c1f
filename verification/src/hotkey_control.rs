//! What presses and releases of the capture hotkeys do: a press arms a
//! hold that starts capturing once the key stays down long enough, a short
//! tap locks capture on (or off), and a release ends a held capture; and
//! how the native dictation hotkey's monitor reports move its lifecycle.
//! Times are milliseconds on a monotonic clock.

use crate::app_state::{self, DictationHotkeyLifecycle, DictationHotkeyRuntime};
use crate::hotkey::HotkeyMonitorStatus;
use crate::shortcuts::{
    self, HOTKEY_HOLD_THRESHOLD_MS, HOTKEY_MIN_DURATION_MS, HotkeyCaptureStyle, HotkeyRuntime,
};
use vstd::prelude::*;

verus! {

/// The hold generation after `g`, wrapping.
pub open spec fn next_generation(g: u64) -> u64 {
    if g == u64::MAX {
        0
    } else {
        (g + 1) as u64
    }
}

fn bump(g: u64) -> (r: u64)
    ensures
        r == next_generation(g),
{
    if g == u64::MAX {
        0
    } else {
        g + 1
    }
}

/// The quick-thought hotkey pressed at `now`: down, with a new hold
/// generation.
pub open spec fn pressed(r: HotkeyRuntime, now: u64) -> HotkeyRuntime {
    HotkeyRuntime {
        key_down: true,
        key_down_started_at: Some(now),
        hold_generation: next_generation(r.hold_generation),
        ..r
    }
}

/// Whether the hold armed by press `generation` may start: the key is
/// still down from that press and the hotkey captures nothing.
pub open spec fn hold_armed(r: HotkeyRuntime, generation: u64) -> bool {
    r.key_down && r.hold_generation == generation && r.active_capture is None
}

/// A press of the quick-thought hotkey: ignored (none) while the key is
/// already down; else the key goes down at `now` and a new hold
/// generation is returned, for which a hold may start later.
pub fn recording_hotkey_press(runtime: &mut HotkeyRuntime, now: u64) -> (r: Option<u64>)
    ensures
        old(runtime).key_down ==> r is None && *final(runtime) == *old(runtime),
        !old(runtime).key_down ==> r == Some(pressed(*old(runtime), now).hold_generation) && *final(runtime)
            == pressed(*old(runtime), now),
{
    if runtime.key_down {
        return None;
    }
    runtime.key_down = true;
    runtime.key_down_started_at = Some(now);
    runtime.hold_generation = bump(runtime.hold_generation);
    Some(runtime.hold_generation)
}

/// Whether the hold armed by the press of generation `generation` starts
/// a recording once the threshold has passed: the key is still down from
/// that very press, nothing is being captured, and no recording or
/// processing is under way.
pub fn should_start_recording_hold(
    runtime: &HotkeyRuntime,
    generation: u64,
    recording: bool,
    processing: bool,
    recording_elsewhere: bool,
) -> (r: bool)
    ensures
        r == (hold_armed(*runtime, generation) && !recording && !processing && !recording_elsewhere),
{
    runtime.key_down && runtime.hold_generation == generation && runtime.active_capture.is_none()
        && !recording && !processing && !recording_elsewhere
}

/// What a release of the quick-thought hotkey does.
#[derive(Debug, Clone, Copy, PartialEq, Eq, Structural)]
pub enum RecordingRelease {
    /// Stop the hotkey's capture, discarding it when it was too short.
    StopCapture { discard: bool },
    /// A long press without a capture: nothing.
    Ignore,
    /// A tap while recording: stop the recording.
    StopRecording,
    /// A tap while idle: start a locked capture.
    StartLocked,
}

/// The quick-thought hotkey released: up, and a capture it started is
/// forgotten.
pub open spec fn released(r: HotkeyRuntime) -> HotkeyRuntime {
    if r.active_capture is Some {
        HotkeyRuntime {
            key_down: false,
            key_down_started_at: None,
            active_capture: None,
            recording_started_at: None,
            ..r
        }
    } else {
        HotkeyRuntime { key_down: false, key_down_started_at: None, ..r }
    }
}

/// The action of a release at `now`: the key goes up; a capture started by
/// the hotkey stops (discarded when shorter than the minimum) and is
/// forgotten; else a short tap stops a recording in progress or starts a
/// locked one, and a long press does nothing.
pub open spec fn recording_release(r: HotkeyRuntime, now: u64, recording_active: bool) -> RecordingRelease {
    let short = match r.key_down_started_at {
        Some(s) => shortcuts::elapsed(s, now) < HOTKEY_HOLD_THRESHOLD_MS,
        None => false,
    };
    if r.active_capture is Some {
        RecordingRelease::StopCapture {
            discard: match r.recording_started_at {
                Some(s) => shortcuts::elapsed(s, now) < HOTKEY_MIN_DURATION_MS,
                None => false,
            },
        }
    } else if !short {
        RecordingRelease::Ignore
    } else if recording_active {
        RecordingRelease::StopRecording
    } else {
        RecordingRelease::StartLocked
    }
}

/// A release of the quick-thought hotkey; see `recording_release`.
pub fn recording_hotkey_release(runtime: &mut HotkeyRuntime, now: u64, recording_active: bool) -> (r:
    RecordingRelease)
    ensures
        r == recording_release(*old(runtime), now, recording_active),
        *final(runtime) == released(*old(runtime)),
{
    let pressed_at = runtime.key_down_started_at;
    runtime.key_down = false;
    runtime.key_down_started_at = None;
    let short = shortcuts::is_short_hotkey_tap(pressed_at, now);
    if runtime.active_capture.is_some() {
        let discard = shortcuts::should_discard_hotkey_capture(runtime.recording_started_at, now);
        runtime.active_capture = None;
        runtime.recording_started_at = None;
        return RecordingRelease::StopCapture { discard };
    }
    if !short {
        RecordingRelease::Ignore
    } else if recording_active {
        RecordingRelease::StopRecording
    } else {
        RecordingRelease::StartLocked
    }
}

/// A hold armed by an earlier press never starts once the key was
/// released and pressed again: the new press has another generation. Nor
/// does any hold start while the key is up after a release.
pub proof fn stale_hold_never_starts(r0: HotkeyRuntime, t1: u64, t3: u64, generation: u64)
    ensures
        !hold_armed(pressed(released(pressed(r0, t1)), t3), pressed(r0, t1).hold_generation),
        !hold_armed(released(r0), generation),
{
}

/// The dictation hotkey restarted for `keycode`.
pub open spec fn restarted(r: DictationHotkeyRuntime, keycode: i64) -> DictationHotkeyRuntime {
    DictationHotkeyRuntime {
        generation: next_generation(r.generation),
        keycode,
        lifecycle: DictationHotkeyLifecycle::Starting,
        last_error: None,
        key_down: false,
        key_down_started_at: None,
        active_capture: None,
        hold_generation: r.hold_generation,
    }
}

/// Whether a report of the monitor of generation `generation` applies:
/// only the current monitor's reports do.
pub open spec fn status_applies(r: DictationHotkeyRuntime, generation: u64) -> bool {
    r.generation == generation
}

/// Begins (re)starting the native dictation hotkey for `keycode`: a new
/// generation, the starting lifecycle, no error and no press or capture.
/// Returns the generation whose monitor reports count.
pub fn begin_dictation_hotkey(runtime: &mut DictationHotkeyRuntime, keycode: i64) -> (r: u64)
    ensures
        *final(runtime) == restarted(*old(runtime), keycode),
        r == final(runtime).generation,
{
    runtime.generation = bump(runtime.generation);
    runtime.keycode = keycode;
    runtime.lifecycle = DictationHotkeyLifecycle::Starting;
    runtime.last_error = None;
    app_state::clear_dictation_hotkey_capture_state(runtime);
    runtime.generation
}

/// A press of the dictation hotkey: ignored (none) while the key is down;
/// else the key goes down at `now` and a new hold generation is returned.
pub fn dictation_hotkey_press(runtime: &mut DictationHotkeyRuntime, now: u64) -> (r: Option<u64>)
    ensures
        old(runtime).key_down ==> r is None && *final(runtime) == *old(runtime),
        !old(runtime).key_down ==> r == Some(next_generation(old(runtime).hold_generation)) && *final(runtime)
            == (DictationHotkeyRuntime {
            key_down: true,
            key_down_started_at: Some(now),
            hold_generation: next_generation(old(runtime).hold_generation),
            ..*old(runtime)
        }),
{
    if runtime.key_down {
        return None;
    }
    runtime.key_down = true;
    runtime.key_down_started_at = Some(now);
    runtime.hold_generation = bump(runtime.hold_generation);
    Some(runtime.hold_generation)
}

/// Whether the hold armed by press `generation` starts dictation: the key
/// is still down from that press and nothing is being captured.
pub fn should_start_dictation_hold(runtime: &DictationHotkeyRuntime, generation: u64) -> (r: bool)
    ensures
        r == (runtime.key_down && runtime.hold_generation == generation && runtime.active_capture is None),
{
    runtime.key_down && runtime.hold_generation == generation && runtime.active_capture.is_none()
}

/// What a release of the dictation hotkey does.
#[derive(Debug, Clone, Copy, PartialEq, Eq, Structural)]
pub enum DictationRelease {
    /// End a held dictation.
    StopHold,
    /// A long press without a held dictation: nothing.
    SkipNotShortTap,
    /// A tap while dictating: stop.
    StopLocked,
    /// A tap while another dictation holds the lock: nothing.
    SkipPidActive,
    /// A tap while idle: start a locked dictation.
    StartLocked,
}

/// The action of a release at `now`: a held dictation stops; else a long
/// press does nothing, and a tap stops a running dictation, does nothing
/// while another process dictates, or starts a locked dictation.
pub open spec fn dictation_release(
    r: DictationHotkeyRuntime,
    now: u64,
    dictation_active: bool,
    dictation_pid_active: bool,
) -> DictationRelease {
    let short = match r.key_down_started_at {
        Some(s) => shortcuts::elapsed(s, now) < HOTKEY_HOLD_THRESHOLD_MS,
        None => false,
    };
    if r.active_capture == Some(HotkeyCaptureStyle::Hold) {
        DictationRelease::StopHold
    } else if !short {
        DictationRelease::SkipNotShortTap
    } else if dictation_active {
        DictationRelease::StopLocked
    } else if dictation_pid_active {
        DictationRelease::SkipPidActive
    } else {
        DictationRelease::StartLocked
    }
}

/// A release of the dictation hotkey; the key goes up. See
/// `dictation_release`.
pub fn dictation_hotkey_release(
    runtime: &mut DictationHotkeyRuntime,
    now: u64,
    dictation_active: bool,
    dictation_pid_active: bool,
) -> (r: DictationRelease)
    ensures
        r == dictation_release(*old(runtime), now, dictation_active, dictation_pid_active),
        *final(runtime) == (DictationHotkeyRuntime {
            key_down: false,
            key_down_started_at: None,
            ..*old(runtime)
        }),
{
    let pressed_at = runtime.key_down_started_at;
    runtime.key_down = false;
    runtime.key_down_started_at = None;
    let short = shortcuts::is_short_hotkey_tap(pressed_at, now);
    let held = match runtime.active_capture {
        Some(HotkeyCaptureStyle::Hold) => true,
        _ => false,
    };
    if held {
        DictationRelease::StopHold
    } else if !short {
        DictationRelease::SkipNotShortTap
    } else if dictation_active {
        DictationRelease::StopLocked
    } else if dictation_pid_active {
        DictationRelease::SkipPidActive
    } else {
        DictationRelease::StartLocked
    }
}

/// What a monitor report asks of the caller.
#[derive(Debug, Clone, Copy, PartialEq, Eq, Structural)]
pub struct MonitorEffect {
    /// Ask for the accessibility permission.
    pub prompt_accessibility: bool,
    /// Publish the hotkey status.
    pub emit_status: bool,
    /// Forget the monitor handle.
    pub drop_monitor: bool,
}

/// Applies a report of the monitor of generation `generation` for
/// `keycode`. A report from an older monitor changes nothing. Otherwise
/// the keycode is set; starting and active clear the error; a failure
/// records its message, drops the monitor and asks for the accessibility
/// permission; a stop disables the hotkey, clears the press and capture
/// and drops the monitor. Every current report publishes the status.
pub fn apply_dictation_monitor_status(
    runtime: &mut DictationHotkeyRuntime,
    generation: u64,
    keycode: i64,
    status: HotkeyMonitorStatus,
) -> (r: MonitorEffect)
    ensures
        !status_applies(*old(runtime), generation) ==> *final(runtime) == *old(runtime) && r == (MonitorEffect {
            prompt_accessibility: false,
            emit_status: false,
            drop_monitor: false,
        }),
        status_applies(*old(runtime), generation) ==> {
            &&& r.emit_status
            &&& final(runtime).generation == generation
            &&& final(runtime).keycode == keycode
            &&& final(runtime).hold_generation == old(runtime).hold_generation
            &&& match status {
                HotkeyMonitorStatus::Starting => {
                    &&& final(runtime).lifecycle == DictationHotkeyLifecycle::Starting
                    &&& final(runtime).last_error is None
                    &&& !r.prompt_accessibility && !r.drop_monitor
                    &&& final(runtime).key_down == old(runtime).key_down
                    &&& final(runtime).key_down_started_at == old(runtime).key_down_started_at
                    &&& final(runtime).active_capture == old(runtime).active_capture
                },
                HotkeyMonitorStatus::Active => {
                    &&& final(runtime).lifecycle == DictationHotkeyLifecycle::Active
                    &&& final(runtime).last_error is None
                    &&& !r.prompt_accessibility && !r.drop_monitor
                    &&& final(runtime).key_down == old(runtime).key_down
                    &&& final(runtime).key_down_started_at == old(runtime).key_down_started_at
                    &&& final(runtime).active_capture == old(runtime).active_capture
                },
                HotkeyMonitorStatus::Failed(m) => {
                    &&& final(runtime).lifecycle == DictationHotkeyLifecycle::Failed
                    &&& final(runtime).last_error matches Some(e) && e@ == m@
                    &&& r.prompt_accessibility && r.drop_monitor
                    &&& final(runtime).key_down == old(runtime).key_down
                    &&& final(runtime).key_down_started_at == old(runtime).key_down_started_at
                    &&& final(runtime).active_capture == old(runtime).active_capture
                },
                HotkeyMonitorStatus::Stopped => {
                    &&& final(runtime).lifecycle == DictationHotkeyLifecycle::Disabled
                    &&& final(runtime).last_error is None
                    &&& !r.prompt_accessibility && r.drop_monitor
                    &&& !final(runtime).key_down
                    &&& final(runtime).key_down_started_at is None
                    &&& final(runtime).active_capture is None
                },
            }
        },
{
    if runtime.generation != generation {
        return MonitorEffect { prompt_accessibility: false, emit_status: false, drop_monitor: false };
    }
    runtime.keycode = keycode;
    match status {
        HotkeyMonitorStatus::Starting => {
            runtime.lifecycle = DictationHotkeyLifecycle::Starting;
            runtime.last_error = None;
            MonitorEffect { prompt_accessibility: false, emit_status: true, drop_monitor: false }
        },
        HotkeyMonitorStatus::Active => {
            runtime.lifecycle = DictationHotkeyLifecycle::Active;
            runtime.last_error = None;
            MonitorEffect { prompt_accessibility: false, emit_status: true, drop_monitor: false }
        },
        HotkeyMonitorStatus::Failed(message) => {
            runtime.lifecycle = DictationHotkeyLifecycle::Failed;
            runtime.last_error = Some(message);
            MonitorEffect { prompt_accessibility: true, emit_status: true, drop_monitor: true }
        },
        HotkeyMonitorStatus::Stopped => {
            runtime.lifecycle = DictationHotkeyLifecycle::Disabled;
            runtime.last_error = None;
            app_state::clear_dictation_hotkey_capture_state(runtime);
            MonitorEffect { prompt_accessibility: false, emit_status: true, drop_monitor: true }
        },
    }
}

/// Records that the monitor of generation `generation` could not start:
/// when it is still the current one, the hotkey has failed with `error`.
pub fn dictation_monitor_failed_to_start(runtime: &mut DictationHotkeyRuntime, generation: u64, error: String)
    ensures
        old(runtime).generation != generation ==> *final(runtime) == *old(runtime),
        old(runtime).generation == generation ==> {
            &&& final(runtime).lifecycle == DictationHotkeyLifecycle::Failed
            &&& final(runtime).last_error matches Some(e) && e@ == error@
            &&& final(runtime).generation == generation
            &&& final(runtime).keycode == old(runtime).keycode
            &&& final(runtime).key_down == old(runtime).key_down
            &&& final(runtime).key_down_started_at == old(runtime).key_down_started_at
            &&& final(runtime).active_capture == old(runtime).active_capture
            &&& final(runtime).hold_generation == old(runtime).hold_generation
        },
{
    if runtime.generation == generation {
        runtime.lifecycle = DictationHotkeyLifecycle::Failed;
        runtime.last_error = Some(error);
    }
}

/// Whether a started monitor of generation `generation` is kept: it is
/// still the current one and has not failed meanwhile.
pub fn keeps_dictation_monitor(runtime: &DictationHotkeyRuntime, generation: u64) -> (r: bool)
    ensures
        r == (runtime.generation == generation && runtime.lifecycle != DictationHotkeyLifecycle::Failed),
{
    runtime.generation == generation && runtime.lifecycle != DictationHotkeyLifecycle::Failed
}

/// Reports of a monitor that was replaced change nothing: once the hotkey
/// is restarted, reports carrying the previous generation no longer apply.
pub proof fn replaced_monitor_is_ignored(r: DictationHotkeyRuntime, keycode: i64)
    ensures
        !status_applies(restarted(r, keycode), r.generation),
{
}

} // verus!
