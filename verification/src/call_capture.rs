//! Native call capture: whether it can run on this Mac given the helper's
//! permission probe, how that is reported, and how long a checked answer
//! is reused.

use crate::numbers;
use crate::platform::Platform;
use crate::text;
use vstd::prelude::*;

verus! {

/// The backend name reported when native capture is available.
pub open spec fn native_backend() -> Seq<char> {
    "screencapturekit-helper"@
}

/// Whether native call capture can run, and why not.
#[derive(Debug, Clone, PartialEq, Eq)]
pub enum CallCaptureAvailability {
    Available { backend: String },
    PermissionRequired { detail: String, can_start: bool },
    Unavailable { detail: String },
    Unsupported { detail: String },
}

/// Availability as the frontend receives it.
#[derive(Debug, Clone, PartialEq, Eq)]
pub struct CallCaptureCapability {
    pub status: String,
    pub backend: Option<String>,
    pub detail: String,
    pub can_start: bool,
}

/// Liveness of the two sources of a native call capture.
#[derive(Debug, Clone)]
pub struct CallSourceHealth {
    pub backend: String,
    pub mic_live: bool,
    pub call_audio_live: bool,
    pub mic_level: u32,
    pub call_audio_level: u32,
    pub last_update: String,
}

/// Paths to the per-source audio stems written by the native call helper.
#[derive(Debug, Clone)]
pub struct StemPaths {
    pub voice: String,
    pub system: String,
}

/// The microphone permission the helper reports.
#[derive(Debug, Clone, Copy, PartialEq, Eq, Structural)]
pub enum MicrophonePermission {
    Authorized,
    Denied,
    Restricted,
    NotDetermined,
}

/// The helper's permission probe.
#[derive(Debug, Clone, Copy, PartialEq, Eq, Structural)]
pub struct PermissionProbe {
    pub screen_recording: bool,
    pub microphone: MicrophonePermission,
}

/// The detail shown for available capture.
pub open spec fn available_detail() -> Seq<char> {
    "Capture both your microphone and call audio with native ScreenCaptureKit recording on macOS 15+."@
}

/// The detail shown when Screen Recording must be turned on in System
/// Settings.
pub open spec fn screen_recording_settings_detail() -> Seq<char> {
    "Minutes needs Screen & System Audio Recording access to capture call audio. Turn it on in System Settings > Privacy & Security > Screen & System Audio Recording. macOS may not show a permission prompt for this service, so enabling Minutes there manually is the reliable path. If Minutes already looks enabled there, use Fix Permissions to reset the stale grant."@
}

/// `screen_recording_settings_detail()`.
pub fn screen_recording_settings_detail_text() -> (r: String)
    ensures
        r@ == screen_recording_settings_detail(),
{
    String::from_str(
        "Minutes needs Screen & System Audio Recording access to capture call audio. Turn it on in System Settings > Privacy & Security > Screen & System Audio Recording. macOS may not show a permission prompt for this service, so enabling Minutes there manually is the reliable path. If Minutes already looks enabled there, use Fix Permissions to reset the stale grant.",
    )
}

/// The detail text of an availability.
pub open spec fn detail_of(a: CallCaptureAvailability) -> Seq<char> {
    match a {
        CallCaptureAvailability::Available { .. } => available_detail(),
        CallCaptureAvailability::PermissionRequired { detail, .. } => detail@,
        CallCaptureAvailability::Unavailable { detail } => detail@,
        CallCaptureAvailability::Unsupported { detail } => detail@,
    }
}

/// Whether capture can be attempted: when available, or when a permission
/// is missing but starting may still prompt for it.
pub open spec fn can_attempt(a: CallCaptureAvailability) -> bool {
    match a {
        CallCaptureAvailability::Available { .. } => true,
        CallCaptureAvailability::PermissionRequired { can_start, .. } => can_start,
        _ => false,
    }
}

/// The status word of an availability.
pub open spec fn status_of(a: CallCaptureAvailability) -> Seq<char> {
    match a {
        CallCaptureAvailability::Available { .. } => "available"@,
        CallCaptureAvailability::PermissionRequired { .. } => "permission-required"@,
        CallCaptureAvailability::Unavailable { .. } => "unavailable"@,
        CallCaptureAvailability::Unsupported { .. } => "unsupported"@,
    }
}

impl CallCaptureAvailability {
    /// Whether capture can be attempted; see `can_attempt`.
    pub fn can_attempt_capture(&self) -> (r: bool)
        ensures
            r == can_attempt(*self),
    {
        match self {
            CallCaptureAvailability::Available { .. } => true,
            CallCaptureAvailability::PermissionRequired { can_start, .. } => *can_start,
            _ => false,
        }
    }

    /// The text explaining this availability.
    pub fn detail(&self) -> (r: String)
        ensures
            r@ == detail_of(*self),
    {
        match self {
            CallCaptureAvailability::Available { .. } => String::from_str(
                "Capture both your microphone and call audio with native ScreenCaptureKit recording on macOS 15+.",
            ),
            CallCaptureAvailability::PermissionRequired { detail, .. } => detail.clone(),
            CallCaptureAvailability::Unavailable { detail } => detail.clone(),
            CallCaptureAvailability::Unsupported { detail } => detail.clone(),
        }
    }

    /// This availability as the frontend receives it: its status word, the
    /// backend when available, its detail, and whether capture can start.
    pub fn capability(&self) -> (r: CallCaptureCapability)
        ensures
            r.status@ == status_of(*self),
            text::opt_string(r.backend) == match *self {
                CallCaptureAvailability::Available { backend } => Some(backend@),
                _ => None,
            },
            r.detail@ == detail_of(*self),
            r.can_start == can_attempt(*self),
    {
        let status = match self {
            CallCaptureAvailability::Available { .. } => String::from_str("available"),
            CallCaptureAvailability::PermissionRequired { .. } => String::from_str(
                "permission-required",
            ),
            CallCaptureAvailability::Unavailable { .. } => String::from_str("unavailable"),
            CallCaptureAvailability::Unsupported { .. } => String::from_str("unsupported"),
        };
        let backend = match self {
            CallCaptureAvailability::Available { backend } => Some(backend.clone()),
            _ => None,
        };
        CallCaptureCapability {
            status,
            backend,
            detail: self.detail(),
            can_start: self.can_attempt_capture(),
        }
    }
}

/// The major version in a macOS product version such as `"15.0.1"`: the
/// text before the first `'.'`, trimmed first, read as `str::parse::<u32>`.
pub open spec fn macos_major(version: Seq<char>) -> Option<u32> {
    numbers::parsed_u32(text::split_set(text::trim(version), seq!['.'])[0])
}

/// `macos_major(version)`.
pub fn parse_macos_major_version(version: &str) -> (r: Option<u32>)
    ensures
        r == macos_major(version@),
{
    let v = text::trim_chars(text::chars_of(version).as_slice());
    let dot = vec!['.'];
    assert(dot@ =~= seq!['.']);
    let parts = text::split_on(v.as_slice(), dot.as_slice());
    proof {
        text::lemma_split_by_len(v@, text::one_of(dot@));
    }
    assert(text::views(parts@)[0] == parts@[0]@);
    numbers::parse_u32(parts[0].as_slice())
}

/// The availability the probe shows: available when Screen Recording and
/// the microphone are both granted; otherwise a missing permission, which
/// can still be started unless Screen Recording is known to need System
/// Settings or the microphone is denied or restricted, with a detail for
/// each combination.
pub open spec fn availability_for(probe: PermissionProbe, settings_required: bool) -> (Seq<char>, bool, bool) {
    if probe.screen_recording && probe.microphone == MicrophonePermission::Authorized {
        (native_backend(), true, true)
    } else {
        let can_start = !settings_required && !(probe.microphone == MicrophonePermission::Denied
            || probe.microphone == MicrophonePermission::Restricted);
        (permission_detail(probe, settings_required), can_start, false)
    }
}

/// The detail for a missing permission.
pub open spec fn permission_detail(probe: PermissionProbe, settings_required: bool) -> Seq<char> {
    if settings_required {
        match probe.microphone {
            MicrophonePermission::Denied => "Minutes needs Screen & System Audio Recording and Microphone access to capture both sides of a call. Turn them on in System Settings > Privacy & Security, then reopen Minutes if macOS asks."@,
            MicrophonePermission::Restricted => "Minutes needs Screen & System Audio Recording access to capture call audio, and Microphone access is restricted by macOS on this Mac."@,
            _ => screen_recording_settings_detail(),
        }
    } else if !probe.screen_recording {
        match probe.microphone {
            MicrophonePermission::Authorized => "Minutes needs Screen & System Audio Recording access to capture call audio. Turn Minutes on in System Settings > Privacy & Security > Screen & System Audio Recording, then try Record Call again."@,
            MicrophonePermission::NotDetermined => "Minutes needs Screen & System Audio Recording and Microphone access to capture both sides of a call. Turn Minutes on in System Settings > Privacy & Security > Screen & System Audio Recording, then start call capture again so macOS can ask for Microphone access if needed."@,
            MicrophonePermission::Denied => "Minutes needs Screen & System Audio Recording and Microphone access to capture both sides of a call. Turn on Minutes in System Settings > Privacy & Security > Screen & System Audio Recording and Microphone, then try Record Call again."@,
            MicrophonePermission::Restricted => "Minutes needs Screen & System Audio Recording and Microphone access to capture both sides of a call, but Microphone access is restricted by macOS on this Mac."@,
        }
    } else {
        match probe.microphone {
            MicrophonePermission::NotDetermined => "Minutes will ask for Microphone access when call capture starts."@,
            MicrophonePermission::Denied => "Minutes needs Microphone access to capture your side of the call. Turn it on in System Settings > Privacy & Security > Microphone."@,
            _ => "Minutes needs Microphone access to capture your side of the call, but Microphone access is restricted by macOS on this Mac."@,
        }
    }
}

/// Whether an availability is the one the probe shows: available with the
/// native backend, or a missing permission with its detail and whether it
/// can start.
pub open spec fn is_probe_availability(a: CallCaptureAvailability, probe: PermissionProbe, settings_required: bool) -> bool {
    let (text, can_start, available) = availability_for(probe, settings_required);
    if available {
        a matches CallCaptureAvailability::Available { backend } && backend@ == text
    } else {
        a matches CallCaptureAvailability::PermissionRequired { detail, can_start: c } && detail@ == text
            && c == can_start
    }
}

/// The availability the probe shows, given whether Screen Recording is
/// already known to need System Settings.
pub fn availability_from_probe_with_screen_recording_state(
    probe: PermissionProbe,
    screen_recording_settings_required: bool,
) -> (r: CallCaptureAvailability)
    ensures
        is_probe_availability(r, probe, screen_recording_settings_required),
{
    if probe.screen_recording && probe.microphone == MicrophonePermission::Authorized {
        return CallCaptureAvailability::Available {
            backend: String::from_str("screencapturekit-helper"),
        };
    }
    let can_start = !screen_recording_settings_required && !(probe.microphone
        == MicrophonePermission::Denied || probe.microphone == MicrophonePermission::Restricted);
    let detail = if screen_recording_settings_required {
        match probe.microphone {
            MicrophonePermission::Denied => String::from_str(
                "Minutes needs Screen & System Audio Recording and Microphone access to capture both sides of a call. Turn them on in System Settings > Privacy & Security, then reopen Minutes if macOS asks.",
            ),
            MicrophonePermission::Restricted => String::from_str(
                "Minutes needs Screen & System Audio Recording access to capture call audio, and Microphone access is restricted by macOS on this Mac.",
            ),
            _ => screen_recording_settings_detail_text(),
        }
    } else if !probe.screen_recording {
        match probe.microphone {
            MicrophonePermission::Authorized => String::from_str(
                "Minutes needs Screen & System Audio Recording access to capture call audio. Turn Minutes on in System Settings > Privacy & Security > Screen & System Audio Recording, then try Record Call again.",
            ),
            MicrophonePermission::NotDetermined => String::from_str(
                "Minutes needs Screen & System Audio Recording and Microphone access to capture both sides of a call. Turn Minutes on in System Settings > Privacy & Security > Screen & System Audio Recording, then start call capture again so macOS can ask for Microphone access if needed.",
            ),
            MicrophonePermission::Denied => String::from_str(
                "Minutes needs Screen & System Audio Recording and Microphone access to capture both sides of a call. Turn on Minutes in System Settings > Privacy & Security > Screen & System Audio Recording and Microphone, then try Record Call again.",
            ),
            MicrophonePermission::Restricted => String::from_str(
                "Minutes needs Screen & System Audio Recording and Microphone access to capture both sides of a call, but Microphone access is restricted by macOS on this Mac.",
            ),
        }
    } else {
        match probe.microphone {
            MicrophonePermission::NotDetermined => String::from_str(
                "Minutes will ask for Microphone access when call capture starts.",
            ),
            MicrophonePermission::Denied => String::from_str(
                "Minutes needs Microphone access to capture your side of the call. Turn it on in System Settings > Privacy & Security > Microphone.",
            ),
            _ => String::from_str(
                "Minutes needs Microphone access to capture your side of the call, but Microphone access is restricted by macOS on this Mac.",
            ),
        }
    };
    CallCaptureAvailability::PermissionRequired { detail, can_start }
}

/// The availability the probe shows, updating `settings_required` (whether
/// Screen Recording is known to need System Settings): a granted Screen
/// Recording clears it; otherwise it is used as it stands.
pub fn availability_from_probe(probe: PermissionProbe, settings_required: &mut bool) -> (r:
    CallCaptureAvailability)
    ensures
        *final(settings_required) == (*old(settings_required) && !probe.screen_recording),
        is_probe_availability(r, probe, *final(settings_required)),
{
    if probe.screen_recording {
        *settings_required = false;
    }
    let required = !probe.screen_recording && *settings_required;
    availability_from_probe_with_screen_recording_state(probe, required)
}

/// The text of a start failure that shows Screen Recording must be turned
/// on in System Settings.
pub open spec fn screen_recording_failure_snippet() -> Seq<char> {
    "Screen & System Audio Recording access is required to capture call audio"@
}

/// Notes a failed start: when its error names the Screen Recording
/// requirement, Screen Recording is from then on known to need System
/// Settings. Gives whether that happened (and a checked answer must be
/// dropped).
pub fn note_start_failure(error: &str, settings_required: &mut bool) -> (r: bool)
    ensures
        r == text::contains(error@, screen_recording_failure_snippet()),
        *final(settings_required) == (*old(settings_required) || r),
{
    let e = text::chars_of(error);
    let s = text::lit_chars("Screen & System Audio Recording access is required to capture call audio");
    let hit = text::find_chars(e.as_slice(), s.as_slice(), 0).is_some();
    if hit {
        *settings_required = true;
    }
    hit
}

/// The message for a helper failure: `base`, followed by `": "` and the
/// helper's error lines joined by spaces when those are not blank.
pub open spec fn failure_message(base: Seq<char>, stderr_lines: Seq<Seq<char>>) -> Seq<char> {
    let stderr = text::join(stderr_lines, seq![' ']);
    if text::trim(stderr).len() == 0 {
        base
    } else {
        base + seq![':', ' '] + stderr
    }
}

/// `failure_message(base, stderr_lines)`.
pub fn helper_failure_message(base: &str, stderr_lines: &Vec<String>) -> (r: String)
    ensures
        r@ == failure_message(base@, text::string_views(stderr_lines@)),
{
    let mut lines: Vec<Vec<char>> = Vec::new();
    let mut i: usize = 0;
    while i < stderr_lines.len()
        invariant
            i <= stderr_lines@.len(),
            text::views(lines@) == text::string_views(stderr_lines@).take(i as int),
        decreases stderr_lines@.len() - i,
    {
        let ghost before = text::views(lines@);
        let l = text::chars_of(stderr_lines[i].as_str());
        lines.push(l);
        assert(text::views(lines@) =~= before.push(stderr_lines@[i as int]@));
        assert(text::string_views(stderr_lines@).take(i + 1) =~= text::string_views(stderr_lines@).take(
            i as int,
        ).push(stderr_lines@[i as int]@));
        i = i + 1;
    }
    assert(text::string_views(stderr_lines@).take(stderr_lines@.len() as int) =~= text::string_views(
        stderr_lines@,
    ));
    let sp = vec![' '];
    assert(sp@ =~= seq![' ']);
    let stderr = text::join_chars(&lines, sp.as_slice());
    let t = text::trim_chars(stderr.as_slice());
    if t.len() == 0 {
        base.to_owned()
    } else {
        let mut out = base.to_owned();
        out.append(": ");
        numbers::push_chars(&mut out, stderr.as_slice());
        proof {
            reveal_strlit(": ");
        }
        assert(out@ =~= base@ + seq![':', ' '] + stderr@);
        out
    }
}

/// The availability on a platform without native call capture.
pub fn unsupported_platform_availability() -> (r: CallCaptureAvailability)
    ensures
        r matches CallCaptureAvailability::Unsupported { detail } && detail@
            == "Native call capture is currently implemented on macOS only."@,
{
    CallCaptureAvailability::Unsupported {
        detail: String::from_str("Native call capture is currently implemented on macOS only."),
    }
}

/// What the helper's permission probe run gave.
#[derive(Debug, Clone)]
pub enum ProbeOutcome {
    Probed(PermissionProbe),
    Failed(String),
}

/// What the app found out about this Mac before probing permissions.
#[derive(Debug, Clone)]
pub struct MacFacts {
    pub major_version: Option<u32>,
    pub helper_present: bool,
}

/// The detail shown when the permission probe itself failed with `error`.
pub open spec fn failed_probe_detail(error: Seq<char>) -> Seq<char> {
    "Minutes could not verify Screen & System Audio Recording access cleanly ("@ + error
        + "). Record Call will still try native capture and may prompt again or require re-enabling Minutes in System Settings > Privacy & Security > Screen & System Audio Recording."@
}

/// Freshly checked availability: off macOS, unsupported (native call
/// capture exists on macOS only); on macOS, unsupported before macOS 15,
/// unavailable when the version is unknown or the bundled helper is
/// missing, and otherwise what the helper's probe shows (a probe that could
/// not run leaves capture startable, with a detail naming the error).
/// `facts` and `probe` are what was found on this Mac; they are not read
/// on another platform.
pub fn availability_fresh(
    platform: Platform,
    facts: &MacFacts,
    probe: &ProbeOutcome,
    settings_required: &mut bool,
) -> (r: CallCaptureAvailability)
    ensures
        platform != Platform::MacOs ==> (r matches CallCaptureAvailability::Unsupported { detail } && detail@
            == "Native call capture is currently implemented on macOS only."@),
        platform == Platform::MacOs ==> match facts.major_version {
            None => (r matches CallCaptureAvailability::Unavailable { detail } && detail@
                == "Could not determine the macOS version for native call capture."@),
            Some(m) => m < 15 ==> (r matches CallCaptureAvailability::Unsupported { detail } && detail@
                == "Native call capture requires macOS 15 or newer. This Mac reports macOS "@ + numbers::decimal(
                m as nat,
            ) + "."@),
        },
        (platform == Platform::MacOs && (facts.major_version matches Some(m) && m >= 15 && !facts.helper_present))
            ==> (r matches CallCaptureAvailability::Unavailable { detail } && detail@
            == "Bundled native call helper is missing from the app bundle."@),
        (platform == Platform::MacOs && (facts.major_version matches Some(m) && m >= 15 && facts.helper_present))
            ==> match probe {
            ProbeOutcome::Probed(p) => is_probe_availability(r, *p, *final(settings_required))
                && *final(settings_required) == (*old(settings_required) && !p.screen_recording),
            ProbeOutcome::Failed(e) => r matches CallCaptureAvailability::PermissionRequired {
                detail,
                can_start,
            } && can_start && detail@ == failed_probe_detail(e@),
        },
        !(platform == Platform::MacOs && (facts.major_version matches Some(m) && m >= 15 && facts.helper_present
            && probe is Probed)) ==> (*final(settings_required) == *old(settings_required)),
{
    if platform != Platform::MacOs {
        return unsupported_platform_availability();
    }
    match facts.major_version {
        Some(major) => {
            if major < 15 {
                let mut detail = String::from_str(
                    "Native call capture requires macOS 15 or newer. This Mac reports macOS ",
                );
                numbers::push_decimal(&mut detail, major as u64);
                detail.append(".");
                return CallCaptureAvailability::Unsupported { detail };
            }
        },
        None => {
            return CallCaptureAvailability::Unavailable {
                detail: String::from_str(
                    "Could not determine the macOS version for native call capture.",
                ),
            };
        },
    }
    if !facts.helper_present {
        return CallCaptureAvailability::Unavailable {
            detail: String::from_str("Bundled native call helper is missing from the app bundle."),
        };
    }
    match probe {
        ProbeOutcome::Probed(p) => availability_from_probe(*p, settings_required),
        ProbeOutcome::Failed(error) => {
            let mut detail = String::from_str(
                "Minutes could not verify Screen & System Audio Recording access cleanly (",
            );
            detail.append(error.as_str());
            detail.append(
                "). Record Call will still try native capture and may prompt again or require re-enabling Minutes in System Settings > Privacy & Security > Screen & System Audio Recording.",
            );
            CallCaptureAvailability::PermissionRequired { detail, can_start: true }
        },
    }
}

/// A copy of `a`.
pub fn clone_availability(a: &CallCaptureAvailability) -> (r: CallCaptureAvailability)
    ensures
        r == *a,
{
    match a {
        CallCaptureAvailability::Available { backend } => CallCaptureAvailability::Available {
            backend: backend.clone(),
        },
        CallCaptureAvailability::PermissionRequired { detail, can_start } => {
            CallCaptureAvailability::PermissionRequired { detail: detail.clone(), can_start: *can_start }
        },
        CallCaptureAvailability::Unavailable { detail } => CallCaptureAvailability::Unavailable {
            detail: detail.clone(),
        },
        CallCaptureAvailability::Unsupported { detail } => CallCaptureAvailability::Unsupported {
            detail: detail.clone(),
        },
    }
}

/// A checked availability and when it was checked.
#[derive(Debug, Clone)]
pub struct CachedAvailability {
    pub checked_at_ms: u64,
    pub value: CallCaptureAvailability,
}

/// How long a checked availability is reused.
pub const AVAILABILITY_CACHE_MS: u64 = 5_000;

/// The cached availability while it is under five seconds old at `now_ms`
/// (the elapsed time never counts below zero); none when a fresh check is
/// due.
pub fn availability(cache: &Option<CachedAvailability>, now_ms: u64) -> (r: Option<
    CallCaptureAvailability,
>)
    ensures
        match *cache {
            Some(c) => if now_ms < c.checked_at_ms || now_ms - c.checked_at_ms < AVAILABILITY_CACHE_MS {
                r == Some(c.value)
            } else {
                r is None
            },
            None => r is None,
        },
{
    match cache {
        Some(c) => {
            if now_ms < c.checked_at_ms || now_ms - c.checked_at_ms < AVAILABILITY_CACHE_MS {
                Some(clone_availability(&c.value))
            } else {
                None
            }
        },
        None => None,
    }
}

/// Drops the checked availability, so the next check is fresh.
pub fn invalidate_availability_cache(cache: &mut Option<CachedAvailability>)
    ensures
        *final(cache) is None,
{
    *cache = None;
}

/// Keeps `value`, checked at `now_ms`, for reuse.
pub fn remember_availability(cache: &mut Option<CachedAvailability>, now_ms: u64, value: CallCaptureAvailability)
    ensures
        *final(cache) == Some(CachedAvailability { checked_at_ms: now_ms, value }),
{
    *cache = Some(CachedAvailability { checked_at_ms: now_ms, value });
}

/// Permission repair on a platform without native call capture.
pub fn repair_permissions(_bundle_identifier: &str) -> (r: Result<(), String>)
    ensures
        r matches Err(e) && e@ == "call capture permission repair is only available on macOS"@,
{
    Err(String::from_str("call capture permission repair is only available on macOS"))
}

} // verus!
