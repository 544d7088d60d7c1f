//! Changing one setting from the settings screen: which setting a
//! `section.key` names, how its text value is read, and what is answered.

use crate::call_detect::poll_interval_secs;
use crate::meetings;
use crate::numbers;
use crate::text;
use vstd::prelude::*;

verus! {

/// A text setting, stored as given.
#[derive(Debug, Clone, Copy, PartialEq, Eq, Structural)]
pub enum TextSetting {
    TranscriptionModel,
    DiarizationEngine,
    SummarizationEngine,
    SummarizationAgentCommand,
    SummarizationOllamaModel,
    SummarizationOllamaUrl,
    AssistantAgent,
    DictationModel,
    DictationDestination,
    DictationCleanupEngine,
    DictationShortcut,
    LiveTranscriptShortcut,
}

/// An optional text setting: blank text clears it.
#[derive(Debug, Clone, Copy, PartialEq, Eq, Structural)]
pub enum OptionalSetting {
    TranscriptionLanguage,
    RecordingDevice,
    HooksPostRecord,
}

/// A switch: on exactly for the text `true`.
#[derive(Debug, Clone, Copy, PartialEq, Eq, Structural)]
pub enum FlagSetting {
    ScreenContextEnabled,
    ScreenContextKeepAfterSummary,
    CallDetectionEnabled,
    CallDetectionGoogleMeet,
    DictationDailyNoteLog,
    DictationAccumulate,
    DictationAutoPaste,
    DictationShortcutEnabled,
    DictationHotkeyEnabled,
    LiveTranscriptShortcutEnabled,
}

/// A count, read as an unsigned 64-bit number.
#[derive(Debug, Clone, Copy, PartialEq, Eq, Structural)]
pub enum NumberSetting {
    RecordingNativeCaptureRetentionDays,
    ScreenContextIntervalSecs,
    CallDetectionPollIntervalSecs,
    CallDetectionCooldownMinutes,
    DictationSilenceTimeoutMs,
}

/// The setting a `section.key` names.
#[derive(Debug, Clone, Copy, PartialEq, Eq, Structural)]
pub enum SettingKey {
    Text(TextSetting),
    Optional(OptionalSetting),
    Flag(FlagSetting),
    Number(NumberSetting),
    /// The dictation hotkey's keycode, a signed 64-bit number.
    HotkeyKeycode,
    /// The assistant's arguments, split at whitespace.
    AgentArgs,
}

/// A change to one setting, its value read.
#[derive(Debug, Clone)]
pub enum SettingChange {
    Text(TextSetting, String),
    Optional(OptionalSetting, Option<String>),
    Flag(FlagSetting, bool),
    Number(NumberSetting, u64),
    HotkeyKeycode(i64),
    AgentArgs(Vec<String>),
}

/// The setting named by `section` and `key`, if any.
pub open spec fn setting_key(section: Seq<char>, key: Seq<char>) -> Option<SettingKey> {
    if section == "transcription"@ {
        if key == "model"@ {
            Some(SettingKey::Text(TextSetting::TranscriptionModel))
        } else if key == "language"@ {
            Some(SettingKey::Optional(OptionalSetting::TranscriptionLanguage))
        } else {
            None
        }
    } else if section == "recording"@ {
        if key == "device"@ {
            Some(SettingKey::Optional(OptionalSetting::RecordingDevice))
        } else if key == "native_capture_retention_days"@ {
            Some(SettingKey::Number(NumberSetting::RecordingNativeCaptureRetentionDays))
        } else {
            None
        }
    } else if section == "diarization"@ {
        if key == "engine"@ {
            Some(SettingKey::Text(TextSetting::DiarizationEngine))
        } else {
            None
        }
    } else if section == "summarization"@ {
        if key == "engine"@ {
            Some(SettingKey::Text(TextSetting::SummarizationEngine))
        } else if key == "agent_command"@ {
            Some(SettingKey::Text(TextSetting::SummarizationAgentCommand))
        } else if key == "ollama_model"@ {
            Some(SettingKey::Text(TextSetting::SummarizationOllamaModel))
        } else if key == "ollama_url"@ {
            Some(SettingKey::Text(TextSetting::SummarizationOllamaUrl))
        } else {
            None
        }
    } else if section == "screen_context"@ {
        if key == "enabled"@ {
            Some(SettingKey::Flag(FlagSetting::ScreenContextEnabled))
        } else if key == "interval_secs"@ {
            Some(SettingKey::Number(NumberSetting::ScreenContextIntervalSecs))
        } else if key == "keep_after_summary"@ {
            Some(SettingKey::Flag(FlagSetting::ScreenContextKeepAfterSummary))
        } else {
            None
        }
    } else if section == "assistant"@ {
        if key == "agent"@ {
            Some(SettingKey::Text(TextSetting::AssistantAgent))
        } else if key == "agent_args"@ {
            Some(SettingKey::AgentArgs)
        } else {
            None
        }
    } else if section == "call_detection"@ {
        if key == "enabled"@ {
            Some(SettingKey::Flag(FlagSetting::CallDetectionEnabled))
        } else if key == "poll_interval_secs"@ {
            Some(SettingKey::Number(NumberSetting::CallDetectionPollIntervalSecs))
        } else if key == "cooldown_minutes"@ {
            Some(SettingKey::Number(NumberSetting::CallDetectionCooldownMinutes))
        } else if key == "google_meet_enabled"@ {
            Some(SettingKey::Flag(FlagSetting::CallDetectionGoogleMeet))
        } else {
            None
        }
    } else if section == "dictation"@ {
        dictation_key(key)
    } else if section == "live_transcript"@ {
        if key == "shortcut_enabled"@ {
            Some(SettingKey::Flag(FlagSetting::LiveTranscriptShortcutEnabled))
        } else if key == "shortcut"@ {
            Some(SettingKey::Text(TextSetting::LiveTranscriptShortcut))
        } else {
            None
        }
    } else if section == "hooks"@ {
        if key == "post_record"@ {
            Some(SettingKey::Optional(OptionalSetting::HooksPostRecord))
        } else {
            None
        }
    } else {
        None
    }
}

/// The dictation setting named by `key`, if any.
pub open spec fn dictation_key(key: Seq<char>) -> Option<SettingKey> {
    if key == "model"@ {
        Some(SettingKey::Text(TextSetting::DictationModel))
    } else if key == "daily_note_log"@ {
        Some(SettingKey::Flag(FlagSetting::DictationDailyNoteLog))
    } else if key == "accumulate"@ {
        Some(SettingKey::Flag(FlagSetting::DictationAccumulate))
    } else if key == "silence_timeout_ms"@ {
        Some(SettingKey::Number(NumberSetting::DictationSilenceTimeoutMs))
    } else if key == "destination"@ {
        Some(SettingKey::Text(TextSetting::DictationDestination))
    } else if key == "auto_paste"@ {
        Some(SettingKey::Flag(FlagSetting::DictationAutoPaste))
    } else if key == "cleanup_engine"@ {
        Some(SettingKey::Text(TextSetting::DictationCleanupEngine))
    } else if key == "shortcut_enabled"@ {
        Some(SettingKey::Flag(FlagSetting::DictationShortcutEnabled))
    } else if key == "shortcut"@ {
        Some(SettingKey::Text(TextSetting::DictationShortcut))
    } else if key == "hotkey_enabled"@ {
        Some(SettingKey::Flag(FlagSetting::DictationHotkeyEnabled))
    } else if key == "hotkey_keycode"@ {
        Some(SettingKey::HotkeyKeycode)
    } else {
        None
    }
}

fn is(s: &[char], lit: &str) -> (r: bool)
    ensures
        r == (s@ == lit@),
{
    text::eq_lit(s, lit)
}

fn dictation_key_exec(key: &[char]) -> (r: Option<SettingKey>)
    ensures
        r == dictation_key(key@),
{
    if is(key, "model") {
        Some(SettingKey::Text(TextSetting::DictationModel))
    } else if is(key, "daily_note_log") {
        Some(SettingKey::Flag(FlagSetting::DictationDailyNoteLog))
    } else if is(key, "accumulate") {
        Some(SettingKey::Flag(FlagSetting::DictationAccumulate))
    } else if is(key, "silence_timeout_ms") {
        Some(SettingKey::Number(NumberSetting::DictationSilenceTimeoutMs))
    } else if is(key, "destination") {
        Some(SettingKey::Text(TextSetting::DictationDestination))
    } else if is(key, "auto_paste") {
        Some(SettingKey::Flag(FlagSetting::DictationAutoPaste))
    } else if is(key, "cleanup_engine") {
        Some(SettingKey::Text(TextSetting::DictationCleanupEngine))
    } else if is(key, "shortcut_enabled") {
        Some(SettingKey::Flag(FlagSetting::DictationShortcutEnabled))
    } else if is(key, "shortcut") {
        Some(SettingKey::Text(TextSetting::DictationShortcut))
    } else if is(key, "hotkey_enabled") {
        Some(SettingKey::Flag(FlagSetting::DictationHotkeyEnabled))
    } else if is(key, "hotkey_keycode") {
        Some(SettingKey::HotkeyKeycode)
    } else {
        None
    }
}

/// The setting named by `section` and `key`; see `setting_key`.
pub fn lookup_setting(section: &str, key: &str) -> (r: Option<SettingKey>)
    ensures
        r == setting_key(section@, key@),
{
    let s = text::chars_of(section);
    let k = text::chars_of(key);
    let s = s.as_slice();
    let k = k.as_slice();
    if is(s, "transcription") {
        if is(k, "model") {
            Some(SettingKey::Text(TextSetting::TranscriptionModel))
        } else if is(k, "language") {
            Some(SettingKey::Optional(OptionalSetting::TranscriptionLanguage))
        } else {
            None
        }
    } else if is(s, "recording") {
        if is(k, "device") {
            Some(SettingKey::Optional(OptionalSetting::RecordingDevice))
        } else if is(k, "native_capture_retention_days") {
            Some(SettingKey::Number(NumberSetting::RecordingNativeCaptureRetentionDays))
        } else {
            None
        }
    } else if is(s, "diarization") {
        if is(k, "engine") {
            Some(SettingKey::Text(TextSetting::DiarizationEngine))
        } else {
            None
        }
    } else if is(s, "summarization") {
        if is(k, "engine") {
            Some(SettingKey::Text(TextSetting::SummarizationEngine))
        } else if is(k, "agent_command") {
            Some(SettingKey::Text(TextSetting::SummarizationAgentCommand))
        } else if is(k, "ollama_model") {
            Some(SettingKey::Text(TextSetting::SummarizationOllamaModel))
        } else if is(k, "ollama_url") {
            Some(SettingKey::Text(TextSetting::SummarizationOllamaUrl))
        } else {
            None
        }
    } else if is(s, "screen_context") {
        if is(k, "enabled") {
            Some(SettingKey::Flag(FlagSetting::ScreenContextEnabled))
        } else if is(k, "interval_secs") {
            Some(SettingKey::Number(NumberSetting::ScreenContextIntervalSecs))
        } else if is(k, "keep_after_summary") {
            Some(SettingKey::Flag(FlagSetting::ScreenContextKeepAfterSummary))
        } else {
            None
        }
    } else if is(s, "assistant") {
        if is(k, "agent") {
            Some(SettingKey::Text(TextSetting::AssistantAgent))
        } else if is(k, "agent_args") {
            Some(SettingKey::AgentArgs)
        } else {
            None
        }
    } else if is(s, "call_detection") {
        if is(k, "enabled") {
            Some(SettingKey::Flag(FlagSetting::CallDetectionEnabled))
        } else if is(k, "poll_interval_secs") {
            Some(SettingKey::Number(NumberSetting::CallDetectionPollIntervalSecs))
        } else if is(k, "cooldown_minutes") {
            Some(SettingKey::Number(NumberSetting::CallDetectionCooldownMinutes))
        } else if is(k, "google_meet_enabled") {
            Some(SettingKey::Flag(FlagSetting::CallDetectionGoogleMeet))
        } else {
            None
        }
    } else if is(s, "dictation") {
        dictation_key_exec(k)
    } else if is(s, "live_transcript") {
        if is(k, "shortcut_enabled") {
            Some(SettingKey::Flag(FlagSetting::LiveTranscriptShortcutEnabled))
        } else if is(k, "shortcut") {
            Some(SettingKey::Text(TextSetting::LiveTranscriptShortcut))
        } else {
            None
        }
    } else if is(s, "hooks") {
        if is(k, "post_record") {
            Some(SettingKey::Optional(OptionalSetting::HooksPostRecord))
        } else {
            None
        }
    } else {
        None
    }
}

/// Whether `c` is the change `key` with text `value` makes: text as
/// given; optional text trimmed, blank clearing it; a switch on for
/// `true`; a number as `str::parse` reads it; arguments split at
/// whitespace.
pub open spec fn change_matches(c: SettingChange, key: SettingKey, value: Seq<char>) -> bool {
    match key {
        SettingKey::Text(f) => c matches SettingChange::Text(g, v) && g == f && v@ == value,
        SettingKey::Optional(f) => c matches SettingChange::Optional(g, v) && g == f && text::opt_string(v)
            == (if text::trim(value).len() == 0 {
            None
        } else {
            Some(text::trim(value))
        }),
        SettingKey::Flag(f) => c matches SettingChange::Flag(g, v) && g == f && v == (value == "true"@),
        SettingKey::Number(f) => c matches SettingChange::Number(g, v) && g == f && numbers::parsed_u64(value)
            == Some(v),
        SettingKey::HotkeyKeycode => c matches SettingChange::HotkeyKeycode(v) && numbers::parsed_i64(value) == Some(
            v,
        ),
        SettingKey::AgentArgs => c matches SettingChange::AgentArgs(v) && text::string_views(v@) == (if text::trim(
            value,
        ).len() == 0 {
            seq![]
        } else {
            text::words(value)
        }),
    }
}

/// Whether a number for `key` fails to read from `value`.
pub open spec fn bad_number(key: SettingKey, value: Seq<char>) -> bool {
    match key {
        SettingKey::Number(_) => numbers::parsed_u64(value) is None,
        SettingKey::HotkeyKeycode => numbers::parsed_i64(value) is None,
        _ => false,
    }
}

/// Reads a setting change: an unknown `section.key` is refused with
/// `Unknown setting: section.key`, a number that does not read with
/// `key must be a number`; otherwise the change is made as
/// `change_matches` says.
pub fn parse_setting(section: &str, key: &str, value: &str) -> (r: Result<SettingChange, String>)
    ensures
        match setting_key(section@, key@) {
            None => r matches Err(e) && e@ == "Unknown setting: "@ + section@ + "."@ + key@,
            Some(k) => if bad_number(k, value@) {
                r matches Err(e) && e@ == key@ + " must be a number"@
            } else {
                r matches Ok(c) && change_matches(c, k, value@)
            },
        },
{
    let k = match lookup_setting(section, key) {
        None => return Err(numbers::concat4("Unknown setting: ", section, ".", key)),
        Some(k) => k,
    };
    let v = text::chars_of(value);
    match k {
        SettingKey::Text(f) => Ok(SettingChange::Text(f, value.to_owned())),
        SettingKey::Optional(f) => Ok(SettingChange::Optional(f, meetings::parse_optional_string_setting(value))),
        SettingKey::Flag(f) => Ok(SettingChange::Flag(f, is(v.as_slice(), "true"))),
        SettingKey::Number(f) => match numbers::parse_u64(v.as_slice()) {
            Some(n) => Ok(SettingChange::Number(f, n)),
            None => Err(numbers::concat2(key, " must be a number")),
        },
        SettingKey::HotkeyKeycode => match numbers::parse_i64(v.as_slice()) {
            Some(n) => Ok(SettingChange::HotkeyKeycode(n)),
            None => Err(numbers::concat2(key, " must be a number")),
        },
        SettingKey::AgentArgs => {
            let t = text::trim_chars(v.as_slice());
            if t.len() == 0 {
                let empty: Vec<String> = Vec::new();
                assert(text::string_views(empty@) =~= seq![]);
                Ok(SettingChange::AgentArgs(empty))
            } else {
                let ws = text::split_whitespace(v.as_slice());
                let args = text::strings_of(&ws);
                Ok(SettingChange::AgentArgs(args))
            }
        },
    }
}

/// The answer to a setting change that was saved.
pub fn setting_confirmation(section: &str, key: &str, value: &str) -> (r: String)
    ensures
        r@ == "Set "@ + section@ + "."@ + key@ + " = "@ + value@,
{
    let mut r = numbers::concat5("Set ", section, ".", key, " = ");
    r.append(value);
    r
}

} // verus!
