//! The native hotkey monitor's key codes and the events and lifecycle
//! updates it reports.

use vstd::prelude::*;

verus! {

/// The key code of Caps Lock.
pub const KEYCODE_CAPS_LOCK: i64 = 57;

/// The key code of the Fn key.
pub const KEYCODE_FN: i64 = 63;

/// A press or release of the monitored key.
#[derive(Debug, Clone, Copy, PartialEq, Eq, Structural)]
pub enum HotkeyEvent {
    Press,
    Release,
}

/// Lifecycle updates from the hotkey monitor.
#[derive(Debug, Clone, PartialEq, Eq)]
pub enum HotkeyMonitorStatus {
    Starting,
    Active,
    Failed(String),
    Stopped,
}

} // verus!
