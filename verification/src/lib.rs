//! Core logic of the Minutes meeting recorder: transcript text handling,
//! title and intent extraction, configuration defaults, shortcut rules and
//! the small state machines that drive recording and call detection.

pub mod text;
pub mod numbers;
pub mod paths;
pub mod platform;
pub mod errors;
pub mod events;
pub mod pid;
pub mod shortcuts;
pub mod meetings;
pub mod hotkey;
pub mod capture;
pub mod app_state;
pub mod markdown;
pub mod daily_notes;
pub mod search;
pub mod config;
pub mod call_detect;
pub mod call_capture;
pub mod title;
pub mod transcript;
pub mod intents;
pub mod entities;
pub mod attribution;
pub mod pipeline;
pub mod dictation;
pub mod hotkey_control;
pub mod call_helper;
pub mod recording_flow;
pub mod assistant_context;
pub mod settings;
pub mod recovery;
pub mod jobs_view;
pub mod shortcut_rebind;
