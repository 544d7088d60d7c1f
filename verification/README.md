# minutes_core

The core of the Minutes meeting recorder, written in Verus: what the
recorder decides and computes, each function with a contract that Verus
proves.

- `src/` is the verified library: transcript text handling, titles,
  intents and entity links, speaker attribution, search, daily-note
  backlinks, configuration defaults and edits, shortcut rules, the
  readiness checklist, and the small state machines that drive dictation,
  hotkeys, shortcut rebinding, call detection and the native call helper.
  Laws that span several functions are public proof functions next to
  the functions they speak of.
- `app/` is plain Rust around the library: files, processes, locks,
  serde copies of the library's types, and the loops that perform what
  the state machines ask for.
- `tests/` runs the library on concrete values.
