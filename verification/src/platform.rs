//! The desktop platform the app runs on, and what each platform supports.

use vstd::prelude::*;

verus! {

/// The operating system the desktop app was built for.
#[derive(Debug, Clone, Copy, PartialEq, Eq, Structural)]
pub enum Platform {
    MacOs,
    Windows,
    Linux,
    Other,
}

/// The platform's name as the frontend receives it.
pub open spec fn platform_name(p: Platform) -> Seq<char> {
    match p {
        Platform::MacOs => "macos"@,
        Platform::Windows => "windows"@,
        Platform::Linux => "linux"@,
        Platform::Other => "other"@,
    }
}

/// `platform_name(platform)`.
pub fn current_platform(platform: Platform) -> (r: &'static str)
    ensures
        r@ == platform_name(platform),
{
    match platform {
        Platform::MacOs => "macos",
        Platform::Windows => "windows",
        Platform::Linux => "linux",
        Platform::Other => "other",
    }
}

/// Calendar suggestions exist on macOS only.
pub fn supports_calendar_integration(platform: Platform) -> (r: bool)
    ensures
        r == (platform == Platform::MacOs),
{
    platform == Platform::MacOs
}

/// Call detection exists on macOS only.
pub fn supports_call_detection(platform: Platform) -> (r: bool)
    ensures
        r == (platform == Platform::MacOs),
{
    platform == Platform::MacOs
}

/// Copying the latest artifact from the tray exists on macOS only.
pub fn supports_tray_artifact_copy(platform: Platform) -> (r: bool)
    ensures
        r == (platform == Platform::MacOs),
{
    platform == Platform::MacOs
}

/// The native dictation hotkey exists on macOS only.
pub fn supports_dictation_hotkey(platform: Platform) -> (r: bool)
    ensures
        r == (platform == Platform::MacOs),
{
    platform == Platform::MacOs
}

/// The label of the action that reveals a file in the file manager.
pub open spec fn reveal_label(p: Platform) -> Seq<char> {
    match p {
        Platform::MacOs => "Show in Finder"@,
        Platform::Windows => "Show in Explorer"@,
        _ => "Show in Folder"@,
    }
}

/// `reveal_label(platform)`.
pub fn folder_reveal_label(platform: Platform) -> (r: &'static str)
    ensures
        r@ == reveal_label(platform),
{
    match platform {
        Platform::MacOs => "Show in Finder",
        Platform::Windows => "Show in Explorer",
        _ => "Show in Folder",
    }
}

} // verus!
