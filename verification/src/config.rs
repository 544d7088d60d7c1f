//! Configuration: every section's settings with its compiled defaults, and
//! the upgrade step that writes the command palette's section into an
//! existing configuration file.

use crate::call_detect::poll_interval_secs;
use crate::daily_notes;
use crate::paths;
use crate::text;
use vstd::prelude::*;

verus! {

/// The state directory under a home directory: `home/.minutes`.
pub open spec fn minutes_dir_of(home: Seq<char>) -> Seq<char> {
    paths::joined(home, ".minutes"@)
}

/// `minutes_dir_of(home)`.
pub fn minutes_dir(home: &str) -> (r: String)
    ensures
        r@ == minutes_dir_of(home@),
{
    paths::join_str(home, ".minutes")
}

/// Transcription engine settings.
#[derive(Debug, Clone)]
pub struct TranscriptionConfig {
    /// `"whisper"` (default) or `"parakeet"`.
    pub engine: String,
    pub model: String,
    pub model_path: String,
    pub min_words: usize,
    pub language: Option<String>,
    /// Silero VAD model name; empty disables VAD.
    pub vad_model: String,
    pub noise_reduction: bool,
    pub parakeet_binary: String,
    pub parakeet_model: String,
    pub parakeet_vocab: String,
}

impl TranscriptionConfig {
    /// The defaults for a user whose home directory is `home`.
    pub fn defaults_for_home(home: &str) -> (r: Self)
        ensures
            r.engine@ == "whisper"@,
            r.model@ == "small"@,
            r.model_path@ == paths::joined(minutes_dir_of(home@), "models"@),
            r.min_words == 3,
            r.language is None,
            r.vad_model@ == "silero-v6.2.0"@,
            r.noise_reduction,
            r.parakeet_binary@ == "parakeet"@,
            r.parakeet_model@ == "tdt-ctc-110m"@,
            r.parakeet_vocab@ == "vocab.txt"@,
    {
        let dir = minutes_dir(home);
        TranscriptionConfig {
            engine: String::from_str("whisper"),
            model: String::from_str("small"),
            model_path: paths::join_str(dir.as_str(), "models"),
            min_words: 3,
            language: None,
            vad_model: String::from_str("silero-v6.2.0"),
            noise_reduction: true,
            parakeet_binary: String::from_str("parakeet"),
            parakeet_model: String::from_str("tdt-ctc-110m"),
            parakeet_vocab: String::from_str("vocab.txt"),
        }
    }
}

/// Daily-note settings.
#[derive(Debug, Clone)]
pub struct DailyNotesConfig {
    pub enabled: bool,
    pub path: String,
}

impl DailyNotesConfig {
    /// The defaults for a user whose home directory is `home`: disabled,
    /// with notes under `home/meetings/daily`.
    pub fn defaults_for_home(home: &str) -> (r: Self)
        ensures
            !r.enabled,
            r.path@ == paths::joined(paths::joined(home@, "meetings"@), "daily"@),
    {
        let meetings = paths::join_str(home, "meetings");
        DailyNotesConfig { enabled: false, path: paths::join_str(meetings.as_str(), "daily") }
    }
}

/// Watch-folder settings.
#[derive(Debug, Clone)]
pub struct WatchConfig {
    pub paths: Vec<String>,
    pub extensions: Vec<String>,
    /// How watched files are routed (`"memo"` by default); `type` in the
    /// configuration file.
    pub route_type: String,
    pub diarize: bool,
    pub delete_source: bool,
    pub settle_delay_ms: u64,
    /// Files shorter than this route as memos; 0 turns this off.
    pub dictation_threshold_secs: u64,
}

impl WatchConfig {
    /// The defaults for a user whose home directory is `home`: watch the
    /// state directory's `inbox` for common audio files.
    pub fn defaults_for_home(home: &str) -> (r: Self)
        ensures
            text::string_views(r.paths@) == seq![paths::joined(minutes_dir_of(home@), "inbox"@)],
            text::string_views(r.extensions@) == seq!["m4a"@, "wav"@, "mp3"@, "ogg"@, "webm"@],
            r.route_type@ == "memo"@,
            !r.diarize,
            !r.delete_source,
            r.settle_delay_ms == 2000,
            r.dictation_threshold_secs == 120,
    {
        let dir = minutes_dir(home);
        let r = WatchConfig {
            paths: vec![paths::join_str(dir.as_str(), "inbox")],
            extensions: vec![
                String::from_str("m4a"),
                String::from_str("wav"),
                String::from_str("mp3"),
                String::from_str("ogg"),
                String::from_str("webm"),
            ],
            route_type: String::from_str("memo"),
            diarize: false,
            delete_source: false,
            settle_delay_ms: 2000,
            dictation_threshold_secs: 120,
        };
        assert(text::string_views(r.paths@) =~= seq![paths::joined(minutes_dir_of(home@), "inbox"@)]);
        assert(text::string_views(r.extensions@) =~= seq!["m4a"@, "wav"@, "mp3"@, "ogg"@, "webm"@]);
        r
    }
}

/// Command palette settings: whether its global shortcut is on, and which.
#[derive(Debug, Clone)]
pub struct PaletteConfig {
    pub shortcut_enabled: bool,
    pub shortcut: String,
}

impl Default for PaletteConfig {
    fn default() -> (r: Self)
        ensures
            r.shortcut_enabled == true,
            r.shortcut@ == "CmdOrCtrl+Shift+K"@,
    {
        let r = PaletteConfig {
            shortcut_enabled: true,
            shortcut: String::from_str("CmdOrCtrl+Shift+K"),
        };
        r
    }
}

/// Summarization engine settings.
#[derive(Debug, Clone)]
pub struct SummarizationConfig {
    pub engine: String,
    pub agent_command: String,
    pub chunk_max_tokens: usize,
    pub ollama_url: String,
    pub ollama_model: String,
    pub mistral_model: String,
}

impl SummarizationConfig {
    /// The defaults, with `agent` as the assistant agent to run.
    pub fn defaults_with_agent(agent: &str) -> (r: Self)
        ensures
            r.engine@ == "auto"@,
            r.agent_command@ == agent@,
            r.chunk_max_tokens == 4000,
            r.ollama_url@ == "http://localhost:11434"@,
            r.ollama_model@ == "llama3.2"@,
            r.mistral_model@ == "mistral-large-latest"@,
    {
        let r = SummarizationConfig {
            engine: String::from_str("auto"),
            agent_command: agent.to_owned(),
            chunk_max_tokens: 4000,
            ollama_url: String::from_str("http://localhost:11434"),
            ollama_model: String::from_str("llama3.2"),
            mistral_model: String::from_str("mistral-large-latest"),
        };
        r
    }
}

/// Search engine settings.
#[derive(Debug, Clone)]
pub struct SearchConfig {
    pub engine: String,
    pub qmd_collection: Option<String>,
}

impl Default for SearchConfig {
    fn default() -> (r: Self)
        ensures
            r.engine@ == "builtin"@,
            r.qmd_collection is None,
    {
        let r = SearchConfig {
            engine: String::from_str("builtin"),
            qmd_collection: None,
        };
        r
    }
}

/// Directories audio may be read from; empty allows every path.
#[derive(Debug, Clone)]
pub struct SecurityConfig {
    pub allowed_audio_dirs: Vec<String>,
}

impl Default for SecurityConfig {
    fn default() -> (r: Self)
        ensures
            r.allowed_audio_dirs@.len() == 0,
    {
        let r = SecurityConfig {
            allowed_audio_dirs: Vec::new(),
        };
        r
    }
}

/// Screen-context capture settings.
#[derive(Debug, Clone)]
pub struct ScreenContextConfig {
    pub enabled: bool,
    pub interval_secs: u64,
    pub keep_after_summary: bool,
}

impl Default for ScreenContextConfig {
    fn default() -> (r: Self)
        ensures
            r.enabled == false,
            r.interval_secs == 30,
            r.keep_after_summary == false,
    {
        let r = ScreenContextConfig {
            enabled: false,
            interval_secs: 30,
            keep_after_summary: false,
        };
        r
    }
}

/// Privacy settings.
#[derive(Debug, Clone)]
pub struct PrivacyConfig {
    pub hide_from_screen_share: bool,
}

impl Default for PrivacyConfig {
    fn default() -> (r: Self)
        ensures
            r.hide_from_screen_share == true,
    {
        let r = PrivacyConfig {
            hide_from_screen_share: true,
        };
        r
    }
}

/// The assistant agent and its arguments.
#[derive(Debug, Clone)]
pub struct AssistantConfig {
    pub agent: String,
    pub agent_args: Vec<String>,
}

impl AssistantConfig {
    /// The defaults, with `agent` as the assistant agent to run.
    pub fn defaults_with_agent(agent: &str) -> (r: Self)
        ensures
            r.agent@ == agent@,
            r.agent_args@.len() == 0,
    {
        let r = AssistantConfig {
            agent: agent.to_owned(),
            agent_args: Vec::new(),
        };
        r
    }
}

/// Calendar integration settings.
#[derive(Debug, Clone)]
pub struct CalendarConfig {
    pub enabled: bool,
}

impl Default for CalendarConfig {
    fn default() -> (r: Self)
        ensures
            r.enabled == true,
    {
        let r = CalendarConfig {
            enabled: true,
        };
        r
    }
}

/// Call detection settings: polling, cooldown, and the apps that count as calls.
#[derive(Debug, Clone)]
pub struct CallDetectionConfig {
    pub enabled: bool,
    pub poll_interval_secs: u64,
    pub cooldown_minutes: u64,
    pub apps: Vec<String>,
}

impl Default for CallDetectionConfig {
    fn default() -> (r: Self)
        ensures
            r.enabled == true,
            r.poll_interval_secs == 1,
            r.cooldown_minutes == 5,
            text::string_views(r.apps@) == seq!["zoom.us"@, "Microsoft Teams"@, "Webex"@],
    {
        let r = CallDetectionConfig {
            enabled: true,
            poll_interval_secs: 1,
            cooldown_minutes: 5,
            apps: vec![String::from_str("zoom.us"), String::from_str("Microsoft Teams"), String::from_str("Webex")],
        };
        assert(text::string_views(r.apps@) =~= seq!["zoom.us"@, "Microsoft Teams"@, "Webex"@]);
        r
    }
}

/// Who the user is.
#[derive(Debug, Clone)]
pub struct IdentityConfig {
    pub name: Option<String>,
    pub email: Option<String>,
}

impl Default for IdentityConfig {
    fn default() -> (r: Self)
        ensures
            r.name is None,
            r.email is None,
    {
        let r = IdentityConfig {
            name: None,
            email: None,
        };
        r
    }
}

/// Dictation settings.
#[derive(Debug, Clone)]
pub struct DictationConfig {
    pub destination: String,
    pub accumulate: bool,
    pub daily_note_log: bool,
    pub cleanup_engine: String,
    pub auto_paste: bool,
    pub auto_paste_restore: bool,
    pub silence_timeout_ms: u64,
    pub max_utterance_secs: u64,
    pub destination_file: String,
    pub destination_command: String,
    pub model: String,
    pub shortcut_enabled: bool,
    pub shortcut: String,
    pub hotkey_enabled: bool,
    pub hotkey_keycode: i64,
}

impl Default for DictationConfig {
    fn default() -> (r: Self)
        ensures
            r.destination@ == "clipboard"@,
            r.accumulate == true,
            r.daily_note_log == true,
            r.cleanup_engine@ == ""@,
            r.auto_paste == false,
            r.auto_paste_restore == true,
            r.silence_timeout_ms == 2000,
            r.max_utterance_secs == 120,
            r.destination_file@ == ""@,
            r.destination_command@ == ""@,
            r.model@ == "base"@,
            r.shortcut_enabled == false,
            r.shortcut@ == "CmdOrCtrl+Shift+Space"@,
            r.hotkey_enabled == false,
            r.hotkey_keycode == 57,
    {
        let r = DictationConfig {
            destination: String::from_str("clipboard"),
            accumulate: true,
            daily_note_log: true,
            cleanup_engine: String::from_str(""),
            auto_paste: false,
            auto_paste_restore: true,
            silence_timeout_ms: 2000,
            max_utterance_secs: 120,
            destination_file: String::from_str(""),
            destination_command: String::from_str(""),
            model: String::from_str("base"),
            shortcut_enabled: false,
            shortcut: String::from_str("CmdOrCtrl+Shift+Space"),
            hotkey_enabled: false,
            hotkey_keycode: 57,
        };
        r
    }
}

/// Markdown vault settings: root path, meetings subdirectory, sync strategy.
#[derive(Debug, Clone)]
pub struct VaultConfig {
    pub enabled: bool,
    pub path: String,
    pub meetings_subdir: String,
    pub strategy: String,
}

impl Default for VaultConfig {
    fn default() -> (r: Self)
        ensures
            r.enabled == false,
            r.path@ == ""@,
            r.meetings_subdir@ == "areas/meetings"@,
            r.strategy@ == "auto"@,
    {
        let r = VaultConfig {
            enabled: false,
            path: String::from_str(""),
            meetings_subdir: String::from_str("areas/meetings"),
            strategy: String::from_str("auto"),
        };
        r
    }
}

/// Multi-source capture: the voice and call device names.
#[derive(Debug, Clone)]
pub struct SourcesConfig {
    pub voice: Option<String>,
    pub call: Option<String>,
}

impl Default for SourcesConfig {
    fn default() -> (r: Self)
        ensures
            r.voice is None,
            r.call is None,
    {
        let r = SourcesConfig {
            voice: None,
            call: None,
        };
        r
    }
}

/// Recording limits and device settings.
#[derive(Debug, Clone)]
pub struct RecordingConfig {
    pub silence_reminder_secs: u64,
    pub silence_threshold: u32,
    pub silence_auto_stop_secs: u64,
    pub max_duration_secs: u64,
    pub min_disk_space_mb: u64,
    pub device: Option<String>,
    pub auto_call_intent: bool,
    pub allow_degraded_call_capture: bool,
    pub native_capture_retention_days: u64,
    pub sources: Option<SourcesConfig>,
}

impl Default for RecordingConfig {
    fn default() -> (r: Self)
        ensures
            r.silence_reminder_secs == 300,
            r.silence_threshold == 3,
            r.silence_auto_stop_secs == 1800,
            r.max_duration_secs == 28800,
            r.min_disk_space_mb == 500,
            r.device is None,
            r.auto_call_intent == false,
            r.allow_degraded_call_capture == false,
            r.native_capture_retention_days == 7,
            r.sources is None,
    {
        let r = RecordingConfig {
            silence_reminder_secs: 300,
            silence_threshold: 3,
            silence_auto_stop_secs: 1800,
            max_duration_secs: 28800,
            min_disk_space_mb: 500,
            device: None,
            auto_call_intent: false,
            allow_degraded_call_capture: false,
            native_capture_retention_days: 7,
            sources: None,
        };
        r
    }
}

/// Knowledge-base settings.
#[derive(Debug, Clone)]
pub struct KnowledgeConfig {
    pub enabled: bool,
    pub path: String,
    pub adapter: String,
    pub engine: String,
    pub agent_command: String,
    pub log_file: String,
    pub index_file: String,
    pub min_confidence: String,
}

impl KnowledgeConfig {
    /// The defaults, with `agent` as the assistant agent to run.
    pub fn defaults_with_agent(agent: &str) -> (r: Self)
        ensures
            r.enabled == false,
            r.path@ == ""@,
            r.adapter@ == "wiki"@,
            r.engine@ == "none"@,
            r.agent_command@ == agent@,
            r.log_file@ == "log.md"@,
            r.index_file@ == "index.md"@,
            r.min_confidence@ == "strong"@,
    {
        let r = KnowledgeConfig {
            enabled: false,
            path: String::from_str(""),
            adapter: String::from_str("wiki"),
            engine: String::from_str("none"),
            agent_command: agent.to_owned(),
            log_file: String::from_str("log.md"),
            index_file: String::from_str("index.md"),
            min_confidence: String::from_str("strong"),
        };
        r
    }
}

/// Shell commands run on pipeline events.
#[derive(Debug, Clone)]
pub struct HooksConfig {
    pub post_record: Option<String>,
}

impl Default for HooksConfig {
    fn default() -> (r: Self)
        ensures
            r.post_record is None,
    {
        let r = HooksConfig {
            post_record: None,
        };
        r
    }
}

/// Live transcript settings.
#[derive(Debug, Clone)]
pub struct LiveTranscriptConfig {
    pub model: String,
    pub max_utterance_secs: u64,
    pub save_wav: bool,
    pub shortcut_enabled: bool,
    pub shortcut: String,
}

impl Default for LiveTranscriptConfig {
    fn default() -> (r: Self)
        ensures
            r.model@ == ""@,
            r.max_utterance_secs == 30,
            r.save_wav == true,
            r.shortcut_enabled == false,
            r.shortcut@ == "CmdOrCtrl+Shift+L"@,
    {
        let r = LiveTranscriptConfig {
            model: String::from_str(""),
            max_utterance_secs: 30,
            save_wav: true,
            shortcut_enabled: false,
            shortcut: String::from_str("CmdOrCtrl+Shift+L"),
        };
        r
    }
}

/// `"[" + section + "]"`: a table header.
pub open spec fn table_header(section: Seq<char>) -> Seq<char> {
    seq!['['] + section + seq![']']
}

/// Whether raw TOML text has a line that, trimmed, is exactly the header of
/// `section` (such a line is never a comment; dotted and array headers do
/// not count).
pub open spec fn has_section(raw: Seq<char>, section: Seq<char>) -> bool {
    exists|i: int|
        0 <= i < text::lines(raw).len() && text::trim(#[trigger] text::lines(raw)[i]) == table_header(
            section,
        )
}

/// `has_section(raw, section)`: a plain text check, since parsing fills in
/// missing sections with their defaults and so cannot tell whether one was
/// written.
pub fn raw_toml_has_section(raw: &str, section: &str) -> (r: bool)
    ensures
        r == has_section(raw@, section@),
{
    let rc = text::chars_of(raw);
    let ls = text::lines_of(rc.as_slice());
    let mut target = vec!['['];
    text::append_chars(&mut target, text::chars_of(section).as_slice());
    target.push(']');
    assert(target@ =~= table_header(section@));
    let ghost lv = text::views(ls@);
    let mut i: usize = 0;
    while i < ls.len()
        invariant
            i <= ls@.len(),
            lv == text::views(ls@),
            lv == text::lines(raw@),
            target@ == table_header(section@),
            forall|k: int| 0 <= k < i ==> text::trim(#[trigger] lv[k]) != table_header(section@),
        decreases ls@.len() - i,
    {
        let trimmed = text::trim_chars(ls[i].as_slice());
        assert(lv[i as int] == ls@[i as int]@);
        if text::chars_eq(trimmed.as_slice(), target.as_slice()) {
            return true;
        }
        i = i + 1;
    }
    false
}

/// How `toml` writes the string `s` as a TOML value (quoted and escaped).
pub uninterp spec fn toml_string_value(s: Seq<char>) -> Seq<char>;

/// `toml::Value::String(s)` displayed. Trusted: the result is
/// `toml_string_value(s)`; the quoting and escaping rules are not written
/// out.
#[verifier::external_body]
fn toml_string(s: &str) -> (r: String)
    ensures
        r@ == toml_string_value(s@),
{
    toml::Value::String(s.to_string()).to_string()
}

/// `"true"` or `"false"`.
pub open spec fn bool_text(b: bool) -> Seq<char> {
    if b {
        seq!['t', 'r', 'u', 'e']
    } else {
        seq!['f', 'a', 'l', 's', 'e']
    }
}

/// The text to append for the palette section: `[palette]` with both keys.
pub open spec fn palette_section(enabled: bool, shortcut: Seq<char>) -> Seq<char> {
    "[palette]\n"@ + "shortcut_enabled = "@ + bool_text(enabled) + seq!['\n'] + "shortcut = "@
        + toml_string_value(shortcut) + seq!['\n']
}

/// `raw` without trailing newlines, then a blank line unless that leaves
/// nothing, then the palette section.
pub open spec fn with_palette_section(raw: Seq<char>, enabled: bool, shortcut: Seq<char>) -> Seq<
    char,
> {
    let base = text::trim_end_by(raw, text::one_of(seq!['\n']));
    let sep = if base.len() > 0 {
        seq!['\n', '\n']
    } else {
        Seq::<char>::empty()
    };
    base + sep + palette_section(enabled, shortcut)
}

/// `with_palette_section(raw, palette.shortcut_enabled, palette.shortcut)`.
pub fn append_palette_section(raw: &str, palette: &PaletteConfig) -> (r: String)
    ensures
        r@ == with_palette_section(raw@, palette.shortcut_enabled, palette.shortcut@),
{
    let rc = text::chars_of(raw);
    let nl = vec!['\n'];
    assert(nl@ =~= seq!['\n']);
    let base = text::trim_end_set(rc.as_slice(), nl.as_slice());
    let mut out = text::string_of(base.as_slice());
    if base.len() > 0 {
        out.append("\n\n");
    }
    out.append("[palette]\n");
    out.append("shortcut_enabled = ");
    if palette.shortcut_enabled {
        out.append("true");
    } else {
        out.append("false");
    }
    out.append("\n");
    out.append("shortcut = ");
    let value = toml_string(palette.shortcut.as_str());
    out.append(value.as_str());
    out.append("\n");
    proof {
        reveal_strlit("\n\n");
        reveal_strlit("true");
        reveal_strlit("false");
        reveal_strlit("\n");
    }
    let ghost sep = if base@.len() > 0 {
        seq!['\n', '\n']
    } else {
        Seq::<char>::empty()
    };
    assert(out@ =~= base@ + sep + palette_section(palette.shortcut_enabled, palette.shortcut@));
    out
}

/// The configuration text to write back when loading applies its upgrade
/// step: when the file exists (`raw`) and has no `[palette]` section, the
/// text with that section appended at the loaded values; otherwise nothing.
pub open spec fn palette_migration_text(raw: Option<Seq<char>>, enabled: bool, shortcut: Seq<char>) -> Option<Seq<char>> {
    match raw {
        Some(r) => if has_section(r, "palette"@) {
            None
        } else {
            Some(with_palette_section(r, enabled, shortcut))
        },
        None => None,
    }
}

/// `palette_migration_text(raw, palette.shortcut_enabled, palette.shortcut)`.
pub fn palette_migration(raw: Option<&str>, palette: &PaletteConfig) -> (r: Option<String>)
    ensures
        text::opt_string(r) == palette_migration_text(
            daily_notes::opt_str(raw),
            palette.shortcut_enabled,
            palette.shortcut@,
        ),
{
    match raw {
        Some(text) => {
            if raw_toml_has_section(text, "palette") {
                None
            } else {
                Some(append_palette_section(text, palette))
            }
        },
        None => None,
    }
}

/// Whether the call-detection apps include `sentinel`.
pub open spec fn has_sentinel(apps: Seq<Seq<char>>, sentinel: Seq<char>) -> bool {
    apps.contains(sentinel)
}

/// Whether the configured call apps include `sentinel` (such as
/// `"google-meet"`, which turns on browser detection).
pub fn call_detection_has_sentinel(config: &CallDetectionConfig, sentinel: &str) -> (r: bool)
    ensures
        r == has_sentinel(text::string_views(config.apps@), sentinel@),
{
    let s = text::chars_of(sentinel);
    let ghost av = text::string_views(config.apps@);
    let mut i: usize = 0;
    while i < config.apps.len()
        invariant
            i <= config.apps@.len(),
            av == text::string_views(config.apps@),
            s@ == sentinel@,
            forall|k: int| 0 <= k < i ==> av[k] != sentinel@,
        decreases config.apps@.len() - i,
    {
        assert(av[i as int] == config.apps@[i as int]@);
        if text::chars_eq(text::chars_of(config.apps[i].as_str()).as_slice(), s.as_slice()) {
            assert(av.contains(sentinel@)) by {
                assert(av[i as int] == sentinel@);
            }
            return true;
        }
        i = i + 1;
    }
    false
}

/// The predicate "differs from `s`".
pub open spec fn other_than(s: Seq<char>) -> spec_fn(Seq<char>) -> bool {
    |a: Seq<char>| a != s
}

/// The predicate "equals `s`".
pub open spec fn equal_to(s: Seq<char>) -> spec_fn(Seq<char>) -> bool {
    |a: Seq<char>| a == s
}

/// `apps` without `sentinel`, then with it at the end when `enabled`.
pub open spec fn with_sentinel(apps: Seq<Seq<char>>, sentinel: Seq<char>, enabled: bool) -> Seq<
    Seq<char>,
> {
    let kept = apps.filter(other_than(sentinel));
    if enabled {
        kept.push(sentinel)
    } else {
        kept
    }
}

/// Turns the `sentinel` call app on or off: every copy of it is removed,
/// then one is added when `enabled`.
pub fn set_call_detection_sentinel(config: &mut CallDetectionConfig, sentinel: &str, enabled: bool)
    ensures
        text::string_views(final(config).apps@) == with_sentinel(
            text::string_views(old(config).apps@),
            sentinel@,
            enabled,
        ),
        final(config).enabled == old(config).enabled,
        final(config).poll_interval_secs == old(config).poll_interval_secs,
        final(config).cooldown_minutes == old(config).cooldown_minutes,
{
    let s = text::chars_of(sentinel);
    let ghost av = text::string_views(config.apps@);
    let mut kept: Vec<String> = Vec::new();
    let mut i: usize = 0;
    while i < config.apps.len()
        invariant
            i <= config.apps@.len(),
            av == text::string_views(config.apps@),
            s@ == sentinel@,
            text::string_views(kept@) == av.take(i as int).filter(other_than(sentinel@)),
        decreases config.apps@.len() - i,
    {
        assert(av[i as int] == config.apps@[i as int]@);
        assert(av.take(i + 1).drop_last() =~= av.take(i as int));
        let ghost before = text::string_views(kept@);
        if !text::chars_eq(text::chars_of(config.apps[i].as_str()).as_slice(), s.as_slice()) {
            kept.push(config.apps[i].clone());
            assert(text::string_views(kept@) =~= before.push(av[i as int]));
        }
        proof {
            av.take(i as int).lemma_filter_push(av[i as int], other_than(sentinel@));
            assert(av.take(i + 1) =~= av.take(i as int).push(av[i as int]));
        }
        i = i + 1;
    }
    assert(av.take(av.len() as int) =~= av);
    if enabled {
        let ghost before = text::string_views(kept@);
        kept.push(sentinel.to_owned());
        assert(text::string_views(kept@) =~= before.push(sentinel@));
    }
    config.apps = kept;
}

/// Turning a call-app sentinel on twice leaves one copy of it, and turning
/// it off leaves none.
pub proof fn sentinel_toggle_is_idempotent(apps: Seq<Seq<char>>, sentinel: Seq<char>)
    ensures
        with_sentinel(with_sentinel(apps, sentinel, true), sentinel, true) == with_sentinel(
            apps,
            sentinel,
            true,
        ),
        with_sentinel(apps, sentinel, true).filter(equal_to(sentinel)).len() == 1,
        !has_sentinel(with_sentinel(apps, sentinel, false), sentinel),
        has_sentinel(with_sentinel(apps, sentinel, true), sentinel),
{
    let keep = other_than(sentinel);
    let same = equal_to(sentinel);
    let kept = apps.filter(keep);
    assert forall|i: int| 0 <= i < kept.len() implies keep(#[trigger] kept[i]) by {
        apps.lemma_filter_pred(keep, i);
    }
    lemma_filter_all(kept, keep);
    kept.lemma_filter_push(sentinel, keep);
    lemma_filter_none(kept, same);
    kept.lemma_filter_push(sentinel, same);
    assert(kept.filter(same).push(sentinel) =~= seq![sentinel]);
    assert(!kept.contains(sentinel)) by {
        if kept.contains(sentinel) {
            let j = choose|j: int| 0 <= j < kept.len() && kept[j] == sentinel;
            assert(keep(kept[j]));
        }
    }
    assert(kept.push(sentinel)[kept.len() as int] == sentinel);
}

/// Lemma: filtering by a predicate that every member meets changes nothing.
pub proof fn lemma_filter_all(s: Seq<Seq<char>>, p: spec_fn(Seq<char>) -> bool)
    requires
        forall|i: int| 0 <= i < s.len() ==> p(#[trigger] s[i]),
    ensures
        s.filter(p) == s,
    decreases s.len(),
{
    reveal(Seq::filter);
    if s.len() > 0 {
        lemma_filter_all(s.drop_last(), p);
        assert(s.drop_last().push(s.last()) =~= s);
    } else {
        assert(s.filter(p) =~= s);
    }
}

/// Lemma: filtering by a predicate that no member meets leaves nothing.
pub proof fn lemma_filter_none(s: Seq<Seq<char>>, p: spec_fn(Seq<char>) -> bool)
    requires
        forall|i: int| 0 <= i < s.len() ==> !p(#[trigger] s[i]),
    ensures
        s.filter(p).len() == 0,
    decreases s.len(),
{
    reveal(Seq::filter);
    if s.len() > 0 {
        lemma_filter_none(s.drop_last(), p);
    }
}

/// Appending the palette section makes the section present, so the upgrade
/// step leaves text it has migrated alone: running it twice writes once.
pub proof fn palette_migration_is_idempotent(
    raw: Seq<char>,
    enabled: bool,
    shortcut: Seq<char>,
    later_enabled: bool,
    later_shortcut: Seq<char>,
)
    ensures
        has_section(with_palette_section(raw, enabled, shortcut), "palette"@),
        palette_migration_text(
            Some(with_palette_section(raw, enabled, shortcut)),
            later_enabled,
            later_shortcut,
        ) is None,
{
    reveal_strlit("palette");
    reveal_strlit("[palette]\n");
    let s = with_palette_section(raw, enabled, shortcut);
    let nl = text::one_of(seq!['\n']);
    let base = text::trim_end_by(raw, nl);
    let sep = if base.len() > 0 {
        seq!['\n', '\n']
    } else {
        Seq::<char>::empty()
    };
    let prefix = base + sep;
    let header = seq!['[', 'p', 'a', 'l', 'e', 't', 't', 'e', ']'];
    let h = header.push('\n');
    let rest = "shortcut_enabled = "@ + bool_text(enabled) + seq!['\n'] + "shortcut = "@
        + toml_string_value(shortcut) + seq!['\n'];
    assert("[palette]\n"@ =~= h);
    assert(palette_section(enabled, shortcut) =~= h + rest);
    assert(s =~= prefix + (h + rest));
    assert forall|i: int| 0 <= i < header.len() implies !nl(#[trigger] header[i]) by {
        assert(header[i] != '\n');
        if seq!['\n'].contains(header[i]) {
            let j = choose|j: int| 0 <= j < 1 && seq!['\n'][j] == header[i];
            assert(seq!['\n'][j] == '\n');
        }
    }
    text::lemma_split_by_plain(header, nl);
    assert(nl('\n')) by {
        assert(seq!['\n'][0] == '\n');
    }
    assert(h.drop_last() =~= header);
    assert(text::split_by(h, nl) == seq![header, Seq::<char>::empty()]);
    text::lemma_split_by_after(h, rest, nl);
    text::lemma_split_by_len(rest, nl);
    let tail = text::split_by(h + rest, nl);
    assert(tail =~= seq![header] + text::split_by(rest, nl));
    let parts = text::split_by(s, nl);
    let k: int = if prefix.len() > 0 {
        text::lemma_split_by_len(prefix, nl);
        assert(prefix.last() == '\n');
        text::lemma_split_by_after(prefix, h + rest, nl);
        text::split_by(prefix, nl).len() - 1
    } else {
        assert(s =~= h + rest);
        0
    };
    assert(parts[k] == header);
    assert(k < parts.len() - 1);
    let ls = text::lines(s);
    assert(ls[k] == text::strip_cr(header));
    assert(text::strip_cr(header) == header);
    assert(text::trim_start(header) == header);
    assert(text::trim_end(header) == header);
    assert(text::trim(ls[k]) == table_header("palette"@));
}

} // verus!
