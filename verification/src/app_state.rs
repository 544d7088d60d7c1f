//! The desktop app's shared state and the decisions made on it: which
//! shortcut settings to show, whether a live transcript may start, the
//! command palette's lifecycle, readiness reporting, and the dictation
//! hotkey's status.

use crate::call_capture::{
    self, CallCaptureAvailability, CallCaptureCapability, CallSourceHealth, availability,
};
use crate::capture::PipelineStage;
use crate::daily_notes;
use crate::hotkey;
use crate::numbers;
use crate::pid::CaptureMode;
use crate::platform::{
    self, Platform, folder_reveal_label, supports_calendar_integration, supports_call_detection,
    supports_dictation_hotkey, supports_tray_artifact_copy,
};
use crate::shortcuts::{self, HotkeyCaptureStyle, HotkeyChoice, HotkeyRuntime, HotkeySettings};
use crate::text;
use vstd::prelude::*;

verus! {

/// An update waiting to be announced.
#[derive(Debug, Clone)]
pub struct PendingUpdate {
    pub version: String,
    pub body: String,
}

/// The latest artifact or preserved capture the app tells the user about.
#[derive(Debug, Clone)]
pub struct OutputNotice {
    pub kind: String,
    pub title: String,
    pub path: String,
    pub detail: String,
}

/// One line of the readiness checklist.
#[derive(Debug, Clone)]
pub struct ReadinessItem {
    pub label: String,
    pub state: String,
    pub detail: String,
    pub optional: bool,
}

/// A capture that can be retried.
#[derive(Debug, Clone)]
pub struct RecoveryItem {
    pub kind: String,
    pub title: String,
    pub path: String,
    pub detail: String,
    pub retry_type: String,
}

/// A queued or finished processing job as the frontend shows it.
#[derive(Debug, Clone)]
pub struct ProcessingJobView {
    pub id: String,
    pub title: String,
    pub mode: String,
    pub state: String,
    pub stage: Option<String>,
    pub output_path: Option<String>,
    pub audio_path: String,
    pub error: Option<String>,
    pub created_at: String,
    pub started_at: Option<String>,
    pub finished_at: Option<String>,
    pub word_count: Option<usize>,
}

/// The assistant terminal's title.
#[derive(Debug, Clone)]
pub struct TerminalInfo {
    pub title: String,
}

/// What the desktop app can do on this platform.
#[derive(Debug, Clone)]
pub struct DesktopCapabilities {
    pub platform: String,
    pub folder_reveal_label: String,
    pub supports_calendar_integration: bool,
    pub supports_call_detection: bool,
    pub supports_tray_artifact_copy: bool,
    pub supports_dictation_hotkey: bool,
    pub updates_enabled: bool,
    pub native_call_capture: CallCaptureCapability,
}

/// The command palette window's lifecycle. A hotkey opens a closed palette
/// and closes an open one; a hotkey while opening is ignored, and one while
/// closing is queued to reopen once closed.
#[derive(Debug, Clone, Copy, PartialEq, Eq, Structural)]
pub enum PaletteLifecycle {
    Closed,
    Opening,
    Open,
    Closing,
}

impl Default for PaletteLifecycle {
    fn default() -> (r: Self)
        ensures
            r == PaletteLifecycle::Closed,
    {
        PaletteLifecycle::Closed
    }
}

/// What the palette window must do after a hotkey.
#[derive(Debug, Clone, Copy, PartialEq, Eq, Structural)]
pub enum PaletteTransition {
    Open,
    Close,
}

/// The desktop app's shared state, as plain values.
#[derive(Debug, Clone)]
pub struct AppState {
    pub recording: bool,
    pub starting: bool,
    pub stop_flag: bool,
    pub processing: bool,
    pub processing_stage: Option<String>,
    pub latest_output: Option<OutputNotice>,
    pub call_capture_health: Option<CallSourceHealth>,
    pub completion_notifications_enabled: bool,
    pub screen_share_hidden: bool,
    pub global_hotkey_enabled: bool,
    pub global_hotkey_shortcut: String,
    pub hotkey_runtime: HotkeyRuntime,
    pub discard_short_hotkey_capture: bool,
    pub dictation_active: bool,
    pub dictation_stop_flag: bool,
    pub dictation_shortcut_enabled: bool,
    pub dictation_shortcut: String,
    pub live_transcript_active: bool,
    pub live_transcript_stop_flag: bool,
    pub live_shortcut_enabled: bool,
    pub live_shortcut: String,
    pub pending_update: Option<PendingUpdate>,
    pub palette_shortcut_enabled: bool,
    pub palette_shortcut: String,
    pub palette_lifecycle: PaletteLifecycle,
    pub palette_reopen_pending: bool,
}

/// The palette state after a hotkey, with the transition to perform:
/// `(lifecycle, reopen pending, transition)`.
pub open spec fn palette_toggled(l: PaletteLifecycle, pending: bool) -> (PaletteLifecycle, bool, Option<PaletteTransition>) {
    match l {
        PaletteLifecycle::Closed => (PaletteLifecycle::Opening, pending, Some(PaletteTransition::Open)),
        PaletteLifecycle::Open => (PaletteLifecycle::Closing, pending, Some(PaletteTransition::Close)),
        PaletteLifecycle::Opening => (l, pending, None),
        PaletteLifecycle::Closing => (l, true, None),
    }
}

/// The palette state once its window is gone, with whether to open it
/// again for a queued hotkey: `(lifecycle, reopen pending, reopen)`.
pub open spec fn palette_closed(pending: bool) -> (PaletteLifecycle, bool, bool) {
    if pending {
        (PaletteLifecycle::Opening, false, true)
    } else {
        (PaletteLifecycle::Closed, false, false)
    }
}

/// Applies a palette hotkey; see `palette_toggled`.
pub fn toggle_palette(state: &mut AppState) -> (r: Option<PaletteTransition>)
    ensures
        (final(state).palette_lifecycle, final(state).palette_reopen_pending, r) == palette_toggled(
            old(state).palette_lifecycle,
            old(state).palette_reopen_pending,
        ),
{
    match state.palette_lifecycle {
        PaletteLifecycle::Closed => {
            state.palette_lifecycle = PaletteLifecycle::Opening;
            Some(PaletteTransition::Open)
        },
        PaletteLifecycle::Open => {
            state.palette_lifecycle = PaletteLifecycle::Closing;
            Some(PaletteTransition::Close)
        },
        PaletteLifecycle::Opening => None,
        PaletteLifecycle::Closing => {
            state.palette_reopen_pending = true;
            None
        },
    }
}

/// Records that the palette window is gone; gives whether it must be
/// opened again (a hotkey arrived while it was closing).
pub fn palette_window_closed(state: &mut AppState) -> (r: bool)
    ensures
        (final(state).palette_lifecycle, final(state).palette_reopen_pending, r) == palette_closed(
            old(state).palette_reopen_pending,
        ),
{
    state.palette_lifecycle = PaletteLifecycle::Closed;
    let reopen = state.palette_reopen_pending;
    state.palette_reopen_pending = false;
    if reopen && state.palette_lifecycle == PaletteLifecycle::Closed {
        state.palette_lifecycle = PaletteLifecycle::Opening;
        true
    } else {
        false
    }
}

/// Records that opening the palette window finished: open when it was
/// built, closed when building failed.
pub fn palette_open_finished(state: &mut AppState, built: bool)
    ensures
        final(state).palette_lifecycle == if built {
            PaletteLifecycle::Open
        } else {
            PaletteLifecycle::Closed
        },
        final(state).palette_reopen_pending == old(state).palette_reopen_pending,
{
    state.palette_lifecycle = if built {
        PaletteLifecycle::Open
    } else {
        PaletteLifecycle::Closed
    };
}

/// No palette hotkey is lost: a hotkey while the palette closes makes it
/// open again once closed; a hotkey while it opens changes nothing; and
/// from closed, a hotkey opens it and the next (once open) closes it.
pub proof fn palette_hotkeys_are_not_lost(pending: bool)
    ensures
        ({
            let (l, p, t) = palette_toggled(PaletteLifecycle::Closing, pending);
            t is None && palette_closed(p) == (PaletteLifecycle::Opening, false, true)
        }),
        palette_toggled(PaletteLifecycle::Opening, pending) == (PaletteLifecycle::Opening, pending, None::<PaletteTransition>),
        palette_toggled(PaletteLifecycle::Closed, pending).2 == Some(PaletteTransition::Open),
        palette_toggled(PaletteLifecycle::Open, pending).2 == Some(PaletteTransition::Close),
        palette_closed(false) == (PaletteLifecycle::Closed, false, false),
{
}

/// A feature's settings from its enabled flag and shortcut.
pub fn settings_with(enabled: bool, shortcut: &String, choices: Vec<HotkeyChoice>) -> (r: HotkeySettings)
    ensures
        r.enabled == enabled,
        r.shortcut@ == shortcut@,
        r.choices@ == choices@,
{
    HotkeySettings { enabled, shortcut: shortcut.clone(), choices }
}

/// The quick-thought hotkey settings with their choices.
pub fn current_hotkey_settings(state: &AppState) -> (r: HotkeySettings)
    ensures
        r.enabled == state.global_hotkey_enabled,
        r.shortcut@ == state.global_hotkey_shortcut@,
        shortcuts::choices_view(r.choices@) == shortcuts::hotkey_table(),
{
    settings_with(state.global_hotkey_enabled, &state.global_hotkey_shortcut, shortcuts::hotkey_choices())
}

/// The dictation shortcut settings with their choices.
pub fn current_dictation_shortcut_settings(state: &AppState) -> (r: HotkeySettings)
    ensures
        r.enabled == state.dictation_shortcut_enabled,
        r.shortcut@ == state.dictation_shortcut@,
        shortcuts::choices_view(r.choices@) == shortcuts::dictation_table(),
{
    settings_with(
        state.dictation_shortcut_enabled,
        &state.dictation_shortcut,
        shortcuts::dictation_shortcut_choices(),
    )
}

/// The palette shortcut settings with their choices.
pub fn current_palette_settings(state: &AppState) -> (r: HotkeySettings)
    ensures
        r.enabled == state.palette_shortcut_enabled,
        r.shortcut@ == state.palette_shortcut@,
        shortcuts::choices_view(r.choices@) == shortcuts::palette_table(),
{
    settings_with(
        state.palette_shortcut_enabled,
        &state.palette_shortcut,
        shortcuts::palette_shortcut_choices(),
    )
}

/// Why the live transcript may not start: one is already active, a
/// recording is in progress (it already includes a live transcript), or
/// dictation is.
pub open spec fn live_refusal(active: bool, recording: bool, dictating: bool) -> Option<Seq<char>> {
    if active {
        Some("Live transcript already active"@)
    } else if recording {
        Some("Recording already in progress \u{2014} it already includes a live transcript"@)
    } else if dictating {
        Some("Dictation in progress \u{2014} stop dictation first"@)
    } else {
        None
    }
}

fn live_refusal_text(active: bool, recording: bool, dictating: bool) -> (r: Option<String>)
    ensures
        text::opt_string(r) == live_refusal(active, recording, dictating),
{
    if active {
        Some(String::from_str("Live transcript already active"))
    } else if recording {
        Some(String::from_str("Recording already in progress \u{2014} it already includes a live transcript"))
    } else if dictating {
        Some(String::from_str("Dictation in progress \u{2014} stop dictation first"))
    } else {
        None
    }
}

/// Claims the live transcript unless `live_refusal` refuses it (a
/// recording counts when this app or the recording PID file shows one);
/// the claim stands only when it succeeds.
pub fn try_acquire_live(state: &mut AppState, recording_elsewhere: bool) -> (r: Result<(), String>)
    ensures
        match live_refusal(
            old(state).live_transcript_active,
            old(state).recording || recording_elsewhere,
            old(state).dictation_active,
        ) {
            Some(msg) => r matches Err(e) && e@ == msg && final(state).live_transcript_active
                == old(state).live_transcript_active,
            None => r is Ok && final(state).live_transcript_active,
        },
        final(state).recording == old(state).recording,
        final(state).dictation_active == old(state).dictation_active,
{
    let refusal = live_refusal_text(
        state.live_transcript_active,
        state.recording || recording_elsewhere,
        state.dictation_active,
    );
    match refusal {
        Some(msg) => Err(msg),
        None => {
            state.live_transcript_active = true;
            Ok(())
        },
    }
}

/// The other features' shortcuts, for the palette collision check: the
/// dictation shortcut, the live transcript shortcut and the quick-thought
/// hotkey, each with whether it is enabled.
pub fn palette_collision_candidates(state: &AppState) -> (r: Vec<(&'static str, bool, Option<String>)>)
    ensures
        shortcuts::in_use_view(r@) == seq![
            ("dictation"@, state.dictation_shortcut_enabled, Some(state.dictation_shortcut@)),
            ("live transcript"@, state.live_shortcut_enabled, Some(state.live_shortcut@)),
            ("quick thought hotkey"@, state.global_hotkey_enabled, Some(state.global_hotkey_shortcut@)),
        ],
{
    let r = vec![
        ("dictation", state.dictation_shortcut_enabled, Some(state.dictation_shortcut.clone())),
        ("live transcript", state.live_shortcut_enabled, Some(state.live_shortcut.clone())),
        ("quick thought hotkey", state.global_hotkey_enabled, Some(state.global_hotkey_shortcut.clone())),
    ];
    assert(shortcuts::in_use_view(r@) =~= seq![
        ("dictation"@, state.dictation_shortcut_enabled, Some(state.dictation_shortcut@)),
        ("live transcript"@, state.live_shortcut_enabled, Some(state.live_shortcut@)),
        ("quick thought hotkey"@, state.global_hotkey_enabled, Some(state.global_hotkey_shortcut@)),
    ]);
    r
}

/// Refuses a palette shortcut that an enabled feature already uses.
pub fn ensure_no_palette_shortcut_collision(state: &AppState, candidate: &str) -> (r: Result<(), String>)
    ensures
        match shortcuts::first_collision(
            seq![
                ("dictation"@, state.dictation_shortcut_enabled, Some(state.dictation_shortcut@)),
                ("live transcript"@, state.live_shortcut_enabled, Some(state.live_shortcut@)),
                ("quick thought hotkey"@, state.global_hotkey_enabled, Some(state.global_hotkey_shortcut@)),
            ],
            candidate@,
        ) {
            Some(name) => r matches Err(e) && e@ == candidate@ + " is already used by the "@ + name
                + " shortcut"@,
            None => r is Ok,
        },
{
    let in_use = palette_collision_candidates(state);
    shortcuts::shortcut_collision_error(candidate, in_use.as_slice())
}

/// Sets the processing stage shown.
pub fn set_processing_stage(state: &mut AppState, value: Option<&str>)
    ensures
        text::opt_string(final(state).processing_stage) == daily_notes::opt_str(value),
        final(state).latest_output == old(state).latest_output,
        final(state).processing == old(state).processing,
{
    state.processing_stage = match value {
        Some(v) => Some(v.to_owned()),
        None => None,
    };
}

/// Replaces the latest output notice.
pub fn set_latest_output(state: &mut AppState, notice: Option<OutputNotice>)
    ensures
        final(state).latest_output == notice,
        final(state).processing_stage == old(state).processing_stage,
{
    state.latest_output = notice;
}

/// Takes the pending update to announce, once nothing is recording,
/// starting, processing, transcribing live or dictating; while anything is,
/// it stays pending.
pub fn take_deferred_update(state: &mut AppState) -> (r: Option<PendingUpdate>)
    ensures
        ({
            let busy = old(state).recording || old(state).starting || old(state).processing
                || old(state).live_transcript_active || old(state).dictation_active;
            &&& busy ==> r is None && final(state).pending_update == old(state).pending_update
            &&& !busy ==> r == old(state).pending_update && final(state).pending_update is None
        }),
{
    if state.recording || state.starting || state.processing || state.live_transcript_active
        || state.dictation_active {
        return None;
    }
    state.pending_update.take()
}

/// Whether an app build with this bundle identifier updates itself:
/// development builds (`.dev`) do not.
pub fn updates_enabled_for_identifier(identifier: &str) -> (r: bool)
    ensures
        r == !text::has_suffix(identifier@, ".dev"@),
{
    !text::ends_with_lit(text::chars_of(identifier).as_slice(), ".dev")
}

/// The desktop capabilities on `platform`, with native call capture as
/// `call_capture` reports it.
pub fn desktop_capabilities_with_updates_enabled(
    platform: Platform,
    updates_enabled: bool,
    call_capture: &CallCaptureAvailability,
) -> (r: DesktopCapabilities)
    ensures
        r.platform@ == platform::platform_name(platform),
        r.folder_reveal_label@ == platform::reveal_label(platform),
        r.supports_calendar_integration == (platform == Platform::MacOs),
        r.supports_call_detection == (platform == Platform::MacOs),
        r.supports_tray_artifact_copy == (platform == Platform::MacOs),
        r.supports_dictation_hotkey == (platform == Platform::MacOs),
        r.updates_enabled == updates_enabled,
        r.native_call_capture.status@ == call_capture::status_of(*call_capture),
        r.native_call_capture.detail@ == call_capture::detail_of(*call_capture),
        r.native_call_capture.can_start == call_capture::can_attempt(*call_capture),
        text::opt_string(r.native_call_capture.backend) == match *call_capture {
            CallCaptureAvailability::Available { backend } => Some(backend@),
            _ => None,
        },
{
    DesktopCapabilities {
        platform: platform::current_platform(platform).to_owned(),
        folder_reveal_label: platform::folder_reveal_label(platform).to_owned(),
        supports_calendar_integration: platform::supports_calendar_integration(platform),
        supports_call_detection: platform::supports_call_detection(platform),
        supports_tray_artifact_copy: platform::supports_tray_artifact_copy(platform),
        supports_dictation_hotkey: platform::supports_dictation_hotkey(platform),
        updates_enabled,
        native_call_capture: call_capture.capability(),
    }
}

/// The readiness line for call capture.
pub fn call_capture_status(availability: &CallCaptureAvailability) -> (r: ReadinessItem)
    ensures
        r.label@ == "Call capture"@,
        r.optional,
        match *availability {
            CallCaptureAvailability::Available { backend } => r.state@ == "ready"@ && r.detail@
                == "Native call capture is available via "@ + backend@
                + ". Screen Recording permission will be requested when capture actually starts if macOS still needs it."@,
            CallCaptureAvailability::PermissionRequired { detail, .. } => r.state@ == "attention"@
                && r.detail@ == detail@,
            CallCaptureAvailability::Unavailable { detail } => r.state@ == "attention"@ && r.detail@
                == detail@,
            CallCaptureAvailability::Unsupported { detail } => r.state@ == "unsupported"@ && r.detail@
                == detail@,
        },
{
    let (state, detail) = match availability {
        CallCaptureAvailability::Available { backend } => (
            String::from_str("ready"),
            numbers::concat3(
                "Native call capture is available via ",
                backend.as_str(),
                ". Screen Recording permission will be requested when capture actually starts if macOS still needs it.",
            ),
        ),
        CallCaptureAvailability::PermissionRequired { detail, .. } => (
            String::from_str("attention"),
            detail.clone(),
        ),
        CallCaptureAvailability::Unavailable { detail } => (
            String::from_str("attention"),
            detail.clone(),
        ),
        CallCaptureAvailability::Unsupported { detail } => (
            String::from_str("unsupported"),
            detail.clone(),
        ),
    };
    ReadinessItem { label: String::from_str("Call capture"), state, detail, optional: true }
}

/// Why a recording may not start: the preflight's blocking reason, unless
/// the user explicitly asked for a call, the preflight's intent is a call,
/// and native call capture can start.
pub fn blocking_reason_for_start(
    blocking_reason: Option<&str>,
    intent_is_call: bool,
    native_call_capture_can_start: bool,
    explicit_call_intent_requested: bool,
) -> (r: Option<String>)
    ensures
        match blocking_reason {
            Some(reason) => if explicit_call_intent_requested && intent_is_call
                && native_call_capture_can_start {
                r is None
            } else {
                r matches Some(s) && s@ == reason@
            },
            None => r is None,
        },
{
    match blocking_reason {
        Some(reason) => {
            if explicit_call_intent_requested && intent_is_call && native_call_capture_can_start {
                None
            } else {
                Some(reason.to_owned())
            }
        },
        None => None,
    }
}

/// The dictation hotkey as the frontend shows it.
#[derive(Debug, Clone)]
pub struct DictationHotkeyStatus {
    pub state: String,
    pub enabled: bool,
    pub pending: bool,
    pub keycode: i64,
    pub message: String,
}

/// Where the native dictation hotkey monitor is.
#[derive(Debug, Clone, Copy, PartialEq, Eq, Structural)]
pub enum DictationHotkeyLifecycle {
    Disabled,
    Starting,
    Active,
    Failed,
}

/// The native dictation hotkey's state (its monitor thread is held by the
/// app). Times are milliseconds on a monotonic clock.
#[derive(Debug, Clone)]
pub struct DictationHotkeyRuntime {
    pub generation: u64,
    pub keycode: i64,
    pub lifecycle: DictationHotkeyLifecycle,
    pub last_error: Option<String>,
    pub key_down: bool,
    pub key_down_started_at: Option<u64>,
    pub active_capture: Option<HotkeyCaptureStyle>,
    pub hold_generation: u64,
}

impl Default for DictationHotkeyRuntime {
    fn default() -> (r: Self)
        ensures
            r.generation == 0,
            r.keycode == hotkey::KEYCODE_CAPS_LOCK,
            r.lifecycle == DictationHotkeyLifecycle::Disabled,
            r.last_error is None,
            !r.key_down,
            r.key_down_started_at is None,
            r.active_capture is None,
            r.hold_generation == 0,
    {
        DictationHotkeyRuntime {
            generation: 0,
            keycode: hotkey::KEYCODE_CAPS_LOCK,
            lifecycle: DictationHotkeyLifecycle::Disabled,
            last_error: None,
            key_down: false,
            key_down_started_at: None,
            active_capture: None,
            hold_generation: 0,
        }
    }
}

/// The status on platforms without the native dictation hotkey.
pub fn dictation_hotkey_status_for_other_platform() -> (r: DictationHotkeyStatus)
    ensures
        r.state@ == "unsupported"@,
        !r.enabled,
        !r.pending,
        r.keycode == 57,
        r.message@
            == "Native dictation hotkey is currently available on macOS only. Use the CLI or MCP dictation flow on this platform for now."@,
{
    DictationHotkeyStatus {
        state: String::from_str("unsupported"),
        enabled: false,
        pending: false,
        keycode: 57,
        message: String::from_str(
            "Native dictation hotkey is currently available on macOS only. Use the CLI or MCP dictation flow on this platform for now.",
        ),
    }
}

/// The lifecycle's name.
pub open spec fn lifecycle_name(l: DictationHotkeyLifecycle) -> Seq<char> {
    match l {
        DictationHotkeyLifecycle::Disabled => "disabled"@,
        DictationHotkeyLifecycle::Starting => "starting"@,
        DictationHotkeyLifecycle::Active => "active"@,
        DictationHotkeyLifecycle::Failed => "failed"@,
    }
}

/// The dictation hotkey's status from its runtime state: enabled when
/// active, pending when starting, with a message for each lifecycle (a
/// failure shows its error when one was kept).
pub fn current_dictation_hotkey_status(runtime: &DictationHotkeyRuntime) -> (r: DictationHotkeyStatus)
    ensures
        r.state@ == lifecycle_name(runtime.lifecycle),
        r.enabled == (runtime.lifecycle == DictationHotkeyLifecycle::Active),
        r.pending == (runtime.lifecycle == DictationHotkeyLifecycle::Starting),
        r.keycode == runtime.keycode,
        r.message@ == match runtime.lifecycle {
            DictationHotkeyLifecycle::Disabled => "Hold the selected key to dictate, or tap to lock and tap again to stop. Requires Input Monitoring permission."@,
            DictationHotkeyLifecycle::Starting => "Starting native dictation hotkey..."@,
            DictationHotkeyLifecycle::Active => "Active - hold the selected key to dictate, or tap to lock and tap again to stop."@,
            DictationHotkeyLifecycle::Failed => match runtime.last_error {
                Some(e) => e@,
                None => "Could not start the native dictation hotkey."@,
            },
        },
{
    let state = match runtime.lifecycle {
        DictationHotkeyLifecycle::Disabled => String::from_str("disabled"),
        DictationHotkeyLifecycle::Starting => String::from_str("starting"),
        DictationHotkeyLifecycle::Active => String::from_str("active"),
        DictationHotkeyLifecycle::Failed => String::from_str("failed"),
    };
    let message = match runtime.lifecycle {
        DictationHotkeyLifecycle::Disabled => String::from_str(
            "Hold the selected key to dictate, or tap to lock and tap again to stop. Requires Input Monitoring permission.",
        ),
        DictationHotkeyLifecycle::Starting => String::from_str("Starting native dictation hotkey..."),
        DictationHotkeyLifecycle::Active => String::from_str(
            "Active - hold the selected key to dictate, or tap to lock and tap again to stop.",
        ),
        DictationHotkeyLifecycle::Failed => match &runtime.last_error {
            Some(e) => e.clone(),
            None => String::from_str("Could not start the native dictation hotkey."),
        },
    };
    DictationHotkeyStatus {
        state,
        enabled: runtime.lifecycle == DictationHotkeyLifecycle::Active,
        pending: runtime.lifecycle == DictationHotkeyLifecycle::Starting,
        keycode: runtime.keycode,
        message,
    }
}

/// Stops the native dictation hotkey: a new generation (so a monitor still
/// starting is ignored), disabled, no error, and no press or capture.
pub fn stop_dictation_hotkey(runtime: &mut DictationHotkeyRuntime)
    ensures
        final(runtime).generation == (if old(runtime).generation == u64::MAX {
            0
        } else {
            (old(runtime).generation + 1) as u64
        }),
        final(runtime).lifecycle == DictationHotkeyLifecycle::Disabled,
        final(runtime).last_error is None,
        !final(runtime).key_down,
        final(runtime).key_down_started_at is None,
        final(runtime).active_capture is None,
        final(runtime).keycode == old(runtime).keycode,
        final(runtime).hold_generation == old(runtime).hold_generation,
{
    runtime.generation = if runtime.generation == u64::MAX {
        0
    } else {
        runtime.generation + 1
    };
    runtime.lifecycle = DictationHotkeyLifecycle::Disabled;
    runtime.last_error = None;
    runtime.key_down = false;
    runtime.key_down_started_at = None;
    runtime.active_capture = None;
}

/// Forgets the dictation hotkey's press and capture (the hold generation
/// stays).
pub fn clear_dictation_hotkey_capture_state(runtime: &mut DictationHotkeyRuntime)
    ensures
        *final(runtime) == (DictationHotkeyRuntime {
            key_down: false,
            key_down_started_at: None,
            active_capture: None,
            ..*old(runtime)
        }),
{
    runtime.key_down = false;
    runtime.key_down_started_at = None;
    runtime.active_capture = None;
}

/// The progress text for a processing stage of a session in `mode`.
pub open spec fn stage_text(stage: PipelineStage, mode: CaptureMode) -> Seq<char> {
    match (stage, mode) {
        (_, CaptureMode::LiveTranscript) => "Processing live transcript"@,
        (PipelineStage::Diarizing, _) => "Separating speakers"@,
        (PipelineStage::Transcribing, CaptureMode::Meeting) => "Transcribing meeting"@,
        (PipelineStage::Transcribing, CaptureMode::QuickThought) => "Transcribing quick thought"@,
        (PipelineStage::Transcribing, CaptureMode::Dictation) => "Transcribing dictation"@,
        (PipelineStage::Summarizing, CaptureMode::Meeting) => "Generating meeting summary"@,
        (PipelineStage::Summarizing, CaptureMode::QuickThought) => "Generating memo summary"@,
        (PipelineStage::Summarizing, CaptureMode::Dictation) => "Generating dictation summary"@,
        (PipelineStage::Saving, CaptureMode::Meeting) => "Saving meeting"@,
        (PipelineStage::Saving, CaptureMode::QuickThought) => "Saving quick thought"@,
        (PipelineStage::Saving, CaptureMode::Dictation) => "Saving dictation"@,
    }
}

/// `stage_text(stage, mode)`.
pub fn stage_label(stage: PipelineStage, mode: CaptureMode) -> (r: &'static str)
    ensures
        r@ == stage_text(stage, mode),
{
    match (stage, mode) {
        (_, CaptureMode::LiveTranscript) => "Processing live transcript",
        (PipelineStage::Diarizing, _) => "Separating speakers",
        (PipelineStage::Transcribing, CaptureMode::Meeting) => "Transcribing meeting",
        (PipelineStage::Transcribing, CaptureMode::QuickThought) => "Transcribing quick thought",
        (PipelineStage::Transcribing, CaptureMode::Dictation) => "Transcribing dictation",
        (PipelineStage::Summarizing, CaptureMode::Meeting) => "Generating meeting summary",
        (PipelineStage::Summarizing, CaptureMode::QuickThought) => "Generating memo summary",
        (PipelineStage::Summarizing, CaptureMode::Dictation) => "Generating dictation summary",
        (PipelineStage::Saving, CaptureMode::Meeting) => "Saving meeting",
        (PipelineStage::Saving, CaptureMode::QuickThought) => "Saving quick thought",
        (PipelineStage::Saving, CaptureMode::Dictation) => "Saving dictation",
    }
}

/// The readiness line for the speech model named `model_name`, whose file
/// `model_file` exists or not.
pub fn model_status(model_name: &str, model_file: &str, exists: bool) -> (r: ReadinessItem)
    ensures
        r.label@ == "Speech model"@,
        r.state@ == (if exists {
            "ready"@
        } else {
            "attention"@
        }),
        r.detail@ == (if exists {
            model_name@ + " is installed at "@ + model_file@ + "."@
        } else {
            model_name@ + " is not installed yet. Download it before recording."@
        }),
        !r.optional,
{
    let (state, detail) = if exists {
        let mut d = model_name.to_owned();
        d.append(" is installed at ");
        d.append(model_file);
        d.append(".");
        (String::from_str("ready"), d)
    } else {
        (
            String::from_str("attention"),
            numbers::concat2(model_name, " is not installed yet. Download it before recording."),
        )
    };
    ReadinessItem { label: String::from_str("Speech model"), state, detail, optional: false }
}

/// A path as shown to the user: with the home directory written `~`.
pub open spec fn displayed_path(path: Seq<char>, home: Option<Seq<char>>) -> Seq<char> {
    match home {
        Some(h) => if text::has_prefix(path, h) {
            seq!['~'] + path.skip(h.len() as int)
        } else {
            path
        },
        None => path,
    }
}

/// `displayed_path(path, home)`.
pub fn display_path(path: &str, home: Option<&str>) -> (r: String)
    ensures
        r@ == displayed_path(path@, daily_notes::opt_str(home)),
{
    let p = text::chars_of(path);
    match home {
        Some(h) => {
            let hc = text::chars_of(h);
            if text::starts_with(p.as_slice(), hc.as_slice()) {
                let mut out = vec!['~'];
                let rest = text::copy_range(p.as_slice(), hc.len(), p.len());
                text::append_chars(&mut out, rest.as_slice());
                assert(out@ =~= seq!['~'] + p@.skip(hc@.len() as int));
                text::string_of(out.as_slice())
            } else {
                path.to_owned()
            }
        },
        None => path.to_owned(),
    }
}

/// "s" unless there is exactly one.
pub open spec fn plural_s(n: nat) -> Seq<char> {
    if n == 1 {
        ""@
    } else {
        "s"@
    }
}

fn plural_suffix(n: u64) -> (r: &'static str)
    ensures
        r@ == plural_s(n as nat),
{
    if n == 1 {
        ""
    } else {
        "s"
    }
}

/// The readiness line for audio input, given how many input devices were
/// found.
pub fn microphone_status(device_count: u64) -> (r: ReadinessItem)
    ensures
        r.label@ == "Microphone & audio input"@,
        r.state@ == (if device_count > 0 {
            "ready"@
        } else {
            "attention"@
        }),
        r.detail@ == (if device_count > 0 {
            numbers::decimal(device_count as nat) + " audio input device"@ + plural_s(device_count as nat)
                + " detected. Minutes may still prompt for microphone access the first time you record."@
        } else {
            "No audio input devices detected. Check hardware and system audio settings."@
        }),
        !r.optional,
{
    let (state, detail) = if device_count > 0 {
        let mut d = String::new();
        numbers::push_decimal(&mut d, device_count);
        d.append(" audio input device");
        d.append(plural_suffix(device_count));
        d.append(" detected. Minutes may still prompt for microphone access the first time you record.");
        (String::from_str("ready"), d)
    } else {
        (
            String::from_str("attention"),
            String::from_str("No audio input devices detected. Check hardware and system audio settings."),
        )
    };
    ReadinessItem { label: String::from_str("Microphone & audio input"), state, detail, optional: false }
}

/// The readiness line for the watch folders: `existing` of the `total`
/// configured folders exist.
pub fn watcher_status(existing: u64, total: u64) -> (r: ReadinessItem)
    requires
        existing <= total,
    ensures
        r.label@ == "Watcher folders"@,
        r.state@ == (if total > 0 && existing == total {
            "ready"@
        } else {
            "attention"@
        }),
        r.detail@ == (if total == 0 {
            "No watch folders configured. Voice-memo ingestion is available but not set up."@
        } else if existing == total {
            numbers::decimal(total as nat) + " watch folder"@ + plural_s(total as nat)
                + " ready for inbox processing."@
        } else {
            numbers::decimal(existing as nat) + " of "@ + numbers::decimal(total as nat)
                + " watch folders currently exist. Missing folders will prevent automatic inbox processing."@
        }),
        r.optional,
{
    let state = if total > 0 && existing == total {
        String::from_str("ready")
    } else {
        String::from_str("attention")
    };
    let detail = if total == 0 {
        String::from_str("No watch folders configured. Voice-memo ingestion is available but not set up.")
    } else if existing == total {
        let mut d = String::new();
        numbers::push_decimal(&mut d, total);
        d.append(" watch folder");
        d.append(plural_suffix(total));
        d.append(" ready for inbox processing.");
        d
    } else {
        let mut d = String::new();
        numbers::push_decimal(&mut d, existing);
        d.append(" of ");
        numbers::push_decimal(&mut d, total);
        d.append(" watch folders currently exist. Missing folders will prevent automatic inbox processing.");
        d
    };
    ReadinessItem { label: String::from_str("Watcher folders"), state, detail, optional: true }
}

/// The readiness line for the meeting output folder `output_dir`, which
/// exists or not.
pub fn output_dir_status(output_dir: &str, exists: bool) -> (r: ReadinessItem)
    ensures
        r.label@ == "Meeting output folder"@,
        r.state@ == (if exists {
            "ready"@
        } else {
            "attention"@
        }),
        r.detail@ == (if exists {
            "Meeting markdown is stored in "@ + output_dir@ + "."@
        } else {
            "Output folder "@ + output_dir@ + " does not exist yet. Minutes will create it on demand."@
        }),
        !r.optional,
{
    let (state, detail) = if exists {
        (String::from_str("ready"), numbers::concat3("Meeting markdown is stored in ", output_dir, "."))
    } else {
        (
            String::from_str("attention"),
            numbers::concat3("Output folder ", output_dir, " does not exist yet. Minutes will create it on demand."),
        )
    };
    ReadinessItem { label: String::from_str("Meeting output folder"), state, detail, optional: false }
}

/// How the calendar access probe went.
#[derive(Debug, Clone)]
pub enum CalendarProbe {
    /// The calendar answered.
    Answered,
    /// The probe ran and was refused, with this standard error.
    Refused(String),
    /// The probe could not run, with this error.
    CouldNotRun(String),
}

/// The readiness line for calendar suggestions: unsupported off macOS;
/// else ready when the probe was answered and needing attention otherwise,
/// with the probe's (trimmed) standard error or error in the detail.
pub fn calendar_status(platform: Platform, probe: &CalendarProbe) -> (r: ReadinessItem)
    ensures
        r.label@ == "Calendar suggestions"@,
        r.optional,
        platform != Platform::MacOs ==> r.state@ == "unsupported"@ && r.detail@
            == "Calendar suggestions are currently available on macOS only."@,
        platform == Platform::MacOs ==> match probe {
            CalendarProbe::Answered => r.state@ == "ready"@ && r.detail@
                == "Calendar access is available for upcoming-meeting suggestions."@,
            CalendarProbe::Refused(stderr) => r.state@ == "attention"@ && r.detail@ == (if text::trim(
                stderr@,
            ).len() == 0 {
                "Calendar access is unavailable right now. Suggestions will stay hidden until access is granted."@
            } else {
                "Calendar access is unavailable right now ("@ + text::trim(stderr@)
                    + "). Suggestions will stay hidden until access is granted."@
            }),
            CalendarProbe::CouldNotRun(e) => r.state@ == "attention"@ && r.detail@
                == "Calendar checks are unavailable right now ("@ + e@ + "). Suggestions will stay hidden."@,
        },
{
    let label = String::from_str("Calendar suggestions");
    if platform != Platform::MacOs {
        return ReadinessItem {
            label,
            state: String::from_str("unsupported"),
            detail: String::from_str("Calendar suggestions are currently available on macOS only."),
            optional: true,
        };
    }
    match probe {
        CalendarProbe::Answered => ReadinessItem {
            label,
            state: String::from_str("ready"),
            detail: String::from_str("Calendar access is available for upcoming-meeting suggestions."),
            optional: true,
        },
        CalendarProbe::Refused(stderr) => {
            let trimmed = text::trim_chars(text::chars_of(stderr.as_str()).as_slice());
            let detail = if trimmed.len() == 0 {
                String::from_str(
                    "Calendar access is unavailable right now. Suggestions will stay hidden until access is granted.",
                )
            } else {
                let mut d = String::from_str("Calendar access is unavailable right now (");
                numbers::push_chars(&mut d, trimmed.as_slice());
                d.append("). Suggestions will stay hidden until access is granted.");
                d
            };
            ReadinessItem { label, state: String::from_str("attention"), detail, optional: true }
        },
        CalendarProbe::CouldNotRun(e) => ReadinessItem {
            label,
            state: String::from_str("attention"),
            detail: numbers::concat3(
                "Calendar checks are unavailable right now (",
                e.as_str(),
                "). Suggestions will stay hidden.",
            ),
            optional: true,
        },
    }
}

/// The health of the vault link, with its paths as text.
#[derive(Debug, Clone)]
pub enum VaultHealth {
    NotConfigured,
    Healthy { strategy: String, path: String },
    BrokenSymlink { link_path: String, target: String },
    PermissionDenied { path: String },
    MissingVaultDir { path: String },
}

/// The readiness line for vault sync: ready when healthy, else needing
/// attention with what is wrong.
pub fn vault_status(health: &VaultHealth) -> (r: ReadinessItem)
    ensures
        r.label@ == "Vault sync (Obsidian / Logseq)"@,
        r.optional,
        r.state@ == (if health is Healthy {
            "ready"@
        } else {
            "attention"@
        }),
        r.detail@ == match health {
            VaultHealth::NotConfigured => "Not configured. Use Settings > Set Up Vault to connect your vault."@,
            VaultHealth::Healthy { strategy, path } => "Strategy: "@ + strategy@ + ". Path: "@ + path@ + "."@,
            VaultHealth::BrokenSymlink { link_path, target } => "Broken symlink at "@ + link_path@ + " → "@
                + target@ + ". Re-run vault setup."@,
            VaultHealth::PermissionDenied { path } => "Permission denied: "@ + path@
                + ". Try Set Up Vault from the app."@,
            VaultHealth::MissingVaultDir { path } => "Vault directory missing: "@ + path@ + "."@,
        },
{
    let (state, detail) = match health {
        VaultHealth::NotConfigured => (
            String::from_str("attention"),
            String::from_str("Not configured. Use Settings > Set Up Vault to connect your vault."),
        ),
        VaultHealth::Healthy { strategy, path } => {
            let mut d = numbers::concat4("Strategy: ", strategy.as_str(), ". Path: ", path.as_str());
            d.append(".");
            (String::from_str("ready"), d)
        },
        VaultHealth::BrokenSymlink { link_path, target } => (
            String::from_str("attention"),
            numbers::concat5(
                "Broken symlink at ",
                link_path.as_str(),
                " → ",
                target.as_str(),
                ". Re-run vault setup.",
            ),
        ),
        VaultHealth::PermissionDenied { path } => (
            String::from_str("attention"),
            numbers::concat3("Permission denied: ", path.as_str(), ". Try Set Up Vault from the app."),
        ),
        VaultHealth::MissingVaultDir { path } => (
            String::from_str("attention"),
            numbers::concat3("Vault directory missing: ", path.as_str(), "."),
        ),
    };
    ReadinessItem { label: String::from_str("Vault sync (Obsidian / Logseq)"), state, detail, optional: true }
}

/// The vault fields the settings screen shows: a status word, the sync
/// strategy, the path and a one-line detail.
#[derive(Debug, Clone)]
pub struct VaultSummary {
    pub status: String,
    pub strategy: String,
    pub path: String,
    pub detail: String,
}

/// The vault fields for `health`.
pub fn vault_summary(health: &VaultHealth) -> (r: VaultSummary)
    ensures
        match health {
            VaultHealth::NotConfigured => r.status@ == "not_configured"@ && r.strategy@ == Seq::<char>::empty()
                && r.path@ == Seq::<char>::empty() && r.detail@ == "Not configured"@,
            VaultHealth::Healthy { strategy, path } => r.status@ == "healthy"@ && r.strategy@ == strategy@
                && r.path@ == path@ && r.detail@ == "Vault active at "@ + path@,
            VaultHealth::BrokenSymlink { link_path, target } => r.status@ == "broken"@ && r.strategy@
                == "symlink"@ && r.path@ == link_path@ && r.detail@ == "Broken symlink → "@ + target@,
            VaultHealth::PermissionDenied { path } => r.status@ == "permission_denied"@ && r.strategy@
                == Seq::<char>::empty() && r.path@ == path@ && r.detail@ == "Permission denied"@,
            VaultHealth::MissingVaultDir { path } => r.status@ == "missing"@ && r.strategy@ == Seq::<char>::empty()
                && r.path@ == path@ && r.detail@ == "Vault directory missing"@,
        },
{
    match health {
        VaultHealth::NotConfigured => VaultSummary {
            status: String::from_str("not_configured"),
            strategy: String::new(),
            path: String::new(),
            detail: String::from_str("Not configured"),
        },
        VaultHealth::Healthy { strategy, path } => VaultSummary {
            status: String::from_str("healthy"),
            strategy: String::from_str(strategy.as_str()),
            path: String::from_str(path.as_str()),
            detail: numbers::concat2("Vault active at ", path.as_str()),
        },
        VaultHealth::BrokenSymlink { link_path, target } => VaultSummary {
            status: String::from_str("broken"),
            strategy: String::from_str("symlink"),
            path: String::from_str(link_path.as_str()),
            detail: numbers::concat2("Broken symlink → ", target.as_str()),
        },
        VaultHealth::PermissionDenied { path } => VaultSummary {
            status: String::from_str("permission_denied"),
            strategy: String::new(),
            path: String::from_str(path.as_str()),
            detail: String::from_str("Permission denied"),
        },
        VaultHealth::MissingVaultDir { path } => VaultSummary {
            status: String::from_str("missing"),
            strategy: String::new(),
            path: String::from_str(path.as_str()),
            detail: String::from_str("Vault directory missing"),
        },
    }
}

/// What vault setup reports once the vault is configured: the strategy and
/// path when the health check passes, else a pointer to the readiness
/// center.
pub fn vault_setup_detail(health: &VaultHealth) -> (r: String)
    ensures
        r@ == match health {
            VaultHealth::Healthy { strategy, path } => "Vault configured ("@ + strategy@ + "): "@ + path@,
            _ => "Vault configured but health check shows issues. Check Readiness Center."@,
        },
{
    match health {
        VaultHealth::Healthy { strategy, path } => numbers::concat4(
            "Vault configured (",
            strategy.as_str(),
            "): ",
            path.as_str(),
        ),
        _ => String::from_str("Vault configured but health check shows issues. Check Readiness Center."),
    }
}

} // verus!
