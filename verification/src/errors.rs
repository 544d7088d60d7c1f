//! The library's failures and the messages shown for them. An I/O failure
//! carries the message of the underlying operating-system error.

use crate::numbers;
use crate::platform::Platform;
use vstd::prelude::*;

verus! {

/// The message for a missing audio device, which names the loopback driver
/// the platform needs.
pub open spec fn device_not_found_message(p: Platform) -> Seq<char> {
    match p {
        Platform::MacOs => "audio device not found \u{2014} is BlackHole installed? Run: brew install blackhole-2ch"@,
        Platform::Windows => "audio device not found \u{2014} is VB-CABLE installed? See https://vb-audio.com/Cable/"@,
        _ => "audio device not found \u{2014} check your ALSA/PulseAudio configuration"@,
    }
}

fn device_not_found_text(p: Platform) -> (r: String)
    ensures
        r@ == device_not_found_message(p),
{
    match p {
        Platform::MacOs => String::from_str(
            "audio device not found \u{2014} is BlackHole installed? Run: brew install blackhole-2ch",
        ),
        Platform::Windows => String::from_str(
            "audio device not found \u{2014} is VB-CABLE installed? See https://vb-audio.com/Cable/",
        ),
        _ => String::from_str("audio device not found \u{2014} check your ALSA/PulseAudio configuration"),
    }
}

/// The message for a refused vault path, which names what the platform
/// requires.
pub open spec fn permission_denied_message(path: Seq<char>, p: Platform) -> Seq<char> {
    match p {
        Platform::MacOs => "permission denied: "@ + path
            + " \u{2014} macOS requires Full Disk Access for ~/Documents/"@,
        Platform::Windows => "permission denied: "@ + path
            + " \u{2014} Windows requires Developer Mode or admin for symlinks"@,
        _ => "permission denied: "@ + path,
    }
}

fn permission_denied_text(path: &str, p: Platform) -> (r: String)
    ensures
        r@ == permission_denied_message(path@, p),
{
    match p {
        Platform::MacOs => numbers::concat3(
            "permission denied: ",
            path,
            " \u{2014} macOS requires Full Disk Access for ~/Documents/",
        ),
        Platform::Windows => numbers::concat3(
            "permission denied: ",
            path,
            " \u{2014} Windows requires Developer Mode or admin for symlinks",
        ),
        _ => numbers::concat2("permission denied: ", path),
    }
}

/// Audio capture failures.
#[derive(Debug, Clone)]
pub enum CaptureError {
    DeviceNotFound,
    AlreadyRecording(u32),
    NotRecording,
    StaleRecording(u32),
    EmptyRecording,
    Io(String),
}

/// The message shown for a `CaptureError`.
pub open spec fn capture_error_message(e: CaptureError, p: Platform) -> Seq<char> {
    match e {
        CaptureError::DeviceNotFound => device_not_found_message(p),
        CaptureError::AlreadyRecording(a) => "already recording (PID: "@ + numbers::decimal(a as nat) + ")"@,
        CaptureError::NotRecording => "no recording in progress"@,
        CaptureError::StaleRecording(a) => "stale recording found (PID "@ + numbers::decimal(a as nat) + " is dead)"@,
        CaptureError::EmptyRecording => "recording produced empty audio (0 bytes)"@,
        CaptureError::Io(a) => "audio I/O error: "@ + a@,
    }
}

impl CaptureError {
    /// The message shown for this error.
    pub fn message(&self, platform: Platform) -> (r: String)
        ensures
            r@ == capture_error_message(*self, platform),
    {
        match self {
            CaptureError::DeviceNotFound => device_not_found_text(platform),
            CaptureError::AlreadyRecording(a) => numbers::with_number("already recording (PID: ", *a as u64, ")"),
            CaptureError::NotRecording => String::from_str("no recording in progress"),
            CaptureError::StaleRecording(a) => numbers::with_number("stale recording found (PID ", *a as u64, " is dead)"),
            CaptureError::EmptyRecording => String::from_str("recording produced empty audio (0 bytes)"),
            CaptureError::Io(a) => numbers::concat2("audio I/O error: ", a.as_str()),
        }
    }
}

/// Transcription failures.
#[derive(Debug, Clone)]
pub enum TranscribeError {
    ModelNotFound(String),
    ModelLoadError(String),
    EmptyAudio,
    UnsupportedFormat(String),
    EmptyTranscript(usize),
    TranscriptionFailed(String),
    EngineNotAvailable(String),
    ParakeetNotFound,
    ParakeetFailed(String),
    Io(String),
}

/// The message shown for a `TranscribeError`.
pub open spec fn transcribe_error_message(e: TranscribeError) -> Seq<char> {
    match e {
        TranscribeError::ModelNotFound(a) => "Whisper model not found. "@ + a@ + "\n\nTo fix this, run:\n\n    minutes setup --model tiny\n"@,
        TranscribeError::ModelLoadError(a) => "failed to load whisper model: "@ + a@,
        TranscribeError::EmptyAudio => "audio file is empty or has zero duration"@,
        TranscribeError::UnsupportedFormat(a) => "unsupported audio format: "@ + a@,
        TranscribeError::EmptyTranscript(a) => "transcription produced no text (below "@ + numbers::decimal(a as nat) + " word minimum)"@,
        TranscribeError::TranscriptionFailed(a) => "transcription failed: "@ + a@,
        TranscribeError::EngineNotAvailable(a) => "engine '"@ + a@ + "' not compiled in — rebuild with: cargo build --features "@ + a@,
        TranscribeError::ParakeetNotFound => "parakeet binary not found. Install parakeet.cpp and ensure `parakeet` is in PATH."@,
        TranscribeError::ParakeetFailed(a) => "parakeet transcription failed: "@ + a@,
        TranscribeError::Io(a) => "I/O error: "@ + a@,
    }
}

impl TranscribeError {
    /// The message shown for this error.
    pub fn message(&self) -> (r: String)
        ensures
            r@ == transcribe_error_message(*self),
    {
        match self {
            TranscribeError::ModelNotFound(a) => numbers::concat3("Whisper model not found. ", a.as_str(), "\n\nTo fix this, run:\n\n    minutes setup --model tiny\n"),
            TranscribeError::ModelLoadError(a) => numbers::concat2("failed to load whisper model: ", a.as_str()),
            TranscribeError::EmptyAudio => String::from_str("audio file is empty or has zero duration"),
            TranscribeError::UnsupportedFormat(a) => numbers::concat2("unsupported audio format: ", a.as_str()),
            TranscribeError::EmptyTranscript(a) => numbers::with_number("transcription produced no text (below ", *a as u64, " word minimum)"),
            TranscribeError::TranscriptionFailed(a) => numbers::concat2("transcription failed: ", a.as_str()),
            TranscribeError::EngineNotAvailable(a) => numbers::concat4("engine '", a.as_str(), "' not compiled in — rebuild with: cargo build --features ", a.as_str()),
            TranscribeError::ParakeetNotFound => String::from_str("parakeet binary not found. Install parakeet.cpp and ensure `parakeet` is in PATH."),
            TranscribeError::ParakeetFailed(a) => numbers::concat2("parakeet transcription failed: ", a.as_str()),
            TranscribeError::Io(a) => numbers::concat2("I/O error: ", a.as_str()),
        }
    }
}

/// Watch-folder failures.
#[derive(Debug, Clone)]
pub enum WatchError {
    AlreadyRunning(String),
    DirNotFound(String),
    MoveError(String, String),
    NotifyError(String),
    Io(String),
}

/// The message shown for a `WatchError`.
pub open spec fn watch_error_message(e: WatchError) -> Seq<char> {
    match e {
        WatchError::AlreadyRunning(a) => "another watcher is already running (PID in "@ + a@ + ")"@,
        WatchError::DirNotFound(a) => "watch directory does not exist: "@ + a@,
        WatchError::MoveError(a, b) => "failed to move file to "@ + a@ + ": "@ + b@,
        WatchError::NotifyError(a) => "file system watcher error: "@ + a@,
        WatchError::Io(a) => "I/O error: "@ + a@,
    }
}

impl WatchError {
    /// The message shown for this error.
    pub fn message(&self) -> (r: String)
        ensures
            r@ == watch_error_message(*self),
    {
        match self {
            WatchError::AlreadyRunning(a) => numbers::concat3("another watcher is already running (PID in ", a.as_str(), ")"),
            WatchError::DirNotFound(a) => numbers::concat2("watch directory does not exist: ", a.as_str()),
            WatchError::MoveError(a, b) => numbers::concat4("failed to move file to ", a.as_str(), ": ", b.as_str()),
            WatchError::NotifyError(a) => numbers::concat2("file system watcher error: ", a.as_str()),
            WatchError::Io(a) => numbers::concat2("I/O error: ", a.as_str()),
        }
    }
}

/// Search failures.
#[derive(Debug, Clone)]
pub enum SearchError {
    DirNotFound(String),
    FrontmatterParseError(String, String),
    Io(String),
}

/// The message shown for a `SearchError`.
pub open spec fn search_error_message(e: SearchError) -> Seq<char> {
    match e {
        SearchError::DirNotFound(a) => "search directory does not exist: "@ + a@,
        SearchError::FrontmatterParseError(a, b) => "failed to parse frontmatter in "@ + a@ + ": "@ + b@,
        SearchError::Io(a) => "I/O error: "@ + a@,
    }
}

impl SearchError {
    /// The message shown for this error.
    pub fn message(&self) -> (r: String)
        ensures
            r@ == search_error_message(*self),
    {
        match self {
            SearchError::DirNotFound(a) => numbers::concat2("search directory does not exist: ", a.as_str()),
            SearchError::FrontmatterParseError(a, b) => numbers::concat4("failed to parse frontmatter in ", a.as_str(), ": ", b.as_str()),
            SearchError::Io(a) => numbers::concat2("I/O error: ", a.as_str()),
        }
    }
}

/// Configuration failures.
#[derive(Debug, Clone)]
pub enum ConfigError {
    ParseError(String, String),
    Io(String),
}

/// The message shown for a `ConfigError`.
pub open spec fn config_error_message(e: ConfigError) -> Seq<char> {
    match e {
        ConfigError::ParseError(a, b) => "failed to parse config file "@ + a@ + ": "@ + b@,
        ConfigError::Io(a) => "I/O error: "@ + a@,
    }
}

impl ConfigError {
    /// The message shown for this error.
    pub fn message(&self) -> (r: String)
        ensures
            r@ == config_error_message(*self),
    {
        match self {
            ConfigError::ParseError(a, b) => numbers::concat4("failed to parse config file ", a.as_str(), ": ", b.as_str()),
            ConfigError::Io(a) => numbers::concat2("I/O error: ", a.as_str()),
        }
    }
}

/// Markdown output failures.
#[derive(Debug, Clone)]
pub enum MarkdownError {
    OutputDirError(String),
    SerializationError(String),
    Io(String),
}

/// The message shown for a `MarkdownError`.
pub open spec fn markdown_error_message(e: MarkdownError) -> Seq<char> {
    match e {
        MarkdownError::OutputDirError(a) => "output directory does not exist and could not be created: "@ + a@,
        MarkdownError::SerializationError(a) => "failed to serialize frontmatter: "@ + a@,
        MarkdownError::Io(a) => "I/O error: "@ + a@,
    }
}

impl MarkdownError {
    /// The message shown for this error.
    pub fn message(&self) -> (r: String)
        ensures
            r@ == markdown_error_message(*self),
    {
        match self {
            MarkdownError::OutputDirError(a) => numbers::concat2("output directory does not exist and could not be created: ", a.as_str()),
            MarkdownError::SerializationError(a) => numbers::concat2("failed to serialize frontmatter: ", a.as_str()),
            MarkdownError::Io(a) => numbers::concat2("I/O error: ", a.as_str()),
        }
    }
}

/// Vault sync failures.
#[derive(Debug, Clone)]
pub enum VaultError {
    NotConfigured,
    VaultPathNotFound(String),
    PermissionDenied(String),
    ExistingDirectory(String),
    SymlinkFailed(String),
    CopyFailed(String, String),
    BrokenSymlink(String, String),
    Io(String),
}

/// The message shown for a `VaultError`.
pub open spec fn vault_error_message(e: VaultError, p: Platform) -> Seq<char> {
    match e {
        VaultError::NotConfigured => "vault not configured — run: minutes vault setup"@,
        VaultError::VaultPathNotFound(a) => "vault path not found: "@ + a@,
        VaultError::PermissionDenied(a) => permission_denied_message(a@, p),
        VaultError::ExistingDirectory(a) => "cannot create symlink — directory already exists: "@ + a@,
        VaultError::SymlinkFailed(a) => "symlink creation failed: "@ + a@,
        VaultError::CopyFailed(a, b) => "vault copy failed for "@ + a@ + ": "@ + b@,
        VaultError::BrokenSymlink(a, b) => "broken symlink at "@ + a@ + " (target: "@ + b@ + ")"@,
        VaultError::Io(a) => "I/O error: "@ + a@,
    }
}

impl VaultError {
    /// The message shown for this error.
    pub fn message(&self, platform: Platform) -> (r: String)
        ensures
            r@ == vault_error_message(*self, platform),
    {
        match self {
            VaultError::NotConfigured => String::from_str("vault not configured — run: minutes vault setup"),
            VaultError::VaultPathNotFound(a) => numbers::concat2("vault path not found: ", a.as_str()),
            VaultError::PermissionDenied(a) => permission_denied_text(a.as_str(), platform),
            VaultError::ExistingDirectory(a) => numbers::concat2("cannot create symlink — directory already exists: ", a.as_str()),
            VaultError::SymlinkFailed(a) => numbers::concat2("symlink creation failed: ", a.as_str()),
            VaultError::CopyFailed(a, b) => numbers::concat4("vault copy failed for ", a.as_str(), ": ", b.as_str()),
            VaultError::BrokenSymlink(a, b) => numbers::concat5("broken symlink at ", a.as_str(), " (target: ", b.as_str(), ")"),
            VaultError::Io(a) => numbers::concat2("I/O error: ", a.as_str()),
        }
    }
}

/// PID-file failures.
#[derive(Debug, Clone)]
pub enum PidError {
    AlreadyRecording(u32),
    NotRecording,
    StalePid(u32),
    Io(String),
}

/// The message shown for a `PidError`.
pub open spec fn pid_error_message(e: PidError) -> Seq<char> {
    match e {
        PidError::AlreadyRecording(a) => "already recording (PID: "@ + numbers::decimal(a as nat) + ")"@,
        PidError::NotRecording => "no recording in progress"@,
        PidError::StalePid(a) => "stale PID file (process "@ + numbers::decimal(a as nat) + " is dead)"@,
        PidError::Io(a) => "I/O error: "@ + a@,
    }
}

impl PidError {
    /// The message shown for this error.
    pub fn message(&self) -> (r: String)
        ensures
            r@ == pid_error_message(*self),
    {
        match self {
            PidError::AlreadyRecording(a) => numbers::with_number("already recording (PID: ", *a as u64, ")"),
            PidError::NotRecording => String::from_str("no recording in progress"),
            PidError::StalePid(a) => numbers::with_number("stale PID file (process ", *a as u64, " is dead)"),
            PidError::Io(a) => numbers::concat2("I/O error: ", a.as_str()),
        }
    }
}

/// Dictation failures.
#[derive(Debug, Clone)]
pub enum DictationError {
    RecordingActive,
    AlreadyActive(u32),
    ClipboardFailed(String),
    AccessibilityDenied,
    NotActive,
    Io(String),
}

/// The message shown for a `DictationError`.
pub open spec fn dictation_error_message(e: DictationError) -> Seq<char> {
    match e {
        DictationError::RecordingActive => "recording in progress — stop recording before dictating"@,
        DictationError::AlreadyActive(a) => "dictation already active (PID: "@ + numbers::decimal(a as nat) + ")"@,
        DictationError::ClipboardFailed(a) => "clipboard write failed: "@ + a@,
        DictationError::AccessibilityDenied => "accessibility permission required for auto-paste"@,
        DictationError::NotActive => "dictation not active"@,
        DictationError::Io(a) => "I/O error: "@ + a@,
    }
}

impl DictationError {
    /// The message shown for this error.
    pub fn message(&self) -> (r: String)
        ensures
            r@ == dictation_error_message(*self),
    {
        match self {
            DictationError::RecordingActive => String::from_str("recording in progress — stop recording before dictating"),
            DictationError::AlreadyActive(a) => numbers::with_number("dictation already active (PID: ", *a as u64, ")"),
            DictationError::ClipboardFailed(a) => numbers::concat2("clipboard write failed: ", a.as_str()),
            DictationError::AccessibilityDenied => String::from_str("accessibility permission required for auto-paste"),
            DictationError::NotActive => String::from_str("dictation not active"),
            DictationError::Io(a) => numbers::concat2("I/O error: ", a.as_str()),
        }
    }
}

/// Every failure of the library, by where it arose.
#[derive(Debug, Clone)]
pub enum MinutesError {
    Capture(CaptureError),
    Transcribe(TranscribeError),
    Watch(WatchError),
    Search(SearchError),
    Config(ConfigError),
    Markdown(MarkdownError),
    Vault(VaultError),
    Pid(PidError),
    Dictation(DictationError),
    Io(String),
}

/// The message shown for a `MinutesError`: that of the failure it wraps.
pub open spec fn minutes_error_message(e: MinutesError, p: Platform) -> Seq<char> {
    match e {
        MinutesError::Capture(x) => capture_error_message(x, p),
        MinutesError::Transcribe(x) => transcribe_error_message(x),
        MinutesError::Watch(x) => watch_error_message(x),
        MinutesError::Search(x) => search_error_message(x),
        MinutesError::Config(x) => config_error_message(x),
        MinutesError::Markdown(x) => markdown_error_message(x),
        MinutesError::Vault(x) => vault_error_message(x, p),
        MinutesError::Pid(x) => pid_error_message(x),
        MinutesError::Dictation(x) => dictation_error_message(x),
        MinutesError::Io(a) => "I/O error: "@ + a@,
    }
}

impl MinutesError {
    /// The message shown for this error.
    pub fn message(&self, platform: Platform) -> (r: String)
        ensures
            r@ == minutes_error_message(*self, platform),
    {
        match self {
            MinutesError::Capture(x) => x.message(platform),
            MinutesError::Transcribe(x) => x.message(),
            MinutesError::Watch(x) => x.message(),
            MinutesError::Search(x) => x.message(),
            MinutesError::Config(x) => x.message(),
            MinutesError::Markdown(x) => x.message(),
            MinutesError::Vault(x) => x.message(platform),
            MinutesError::Pid(x) => x.message(),
            MinutesError::Dictation(x) => x.message(),
            MinutesError::Io(a) => numbers::concat2("I/O error: ", a.as_str()),
        }
    }
}

} // verus!
