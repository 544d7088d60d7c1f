//! Keyboard shortcuts: the offered choices for each feature, validating a
//! choice, refusing one another feature already uses, rendering one as
//! key glyphs, and telling a tap of the hotkey from a hold.

use crate::numbers;
use crate::text;
use vstd::prelude::*;

verus! {

/// One offered shortcut: its accelerator value and its label.
#[derive(Debug, Clone)]
pub struct HotkeyChoice {
    pub value: String,
    pub label: String,
}

/// A feature's shortcut settings and the choices offered for it.
#[derive(Debug, Clone)]
pub struct HotkeySettings {
    pub enabled: bool,
    pub shortcut: String,
    pub choices: Vec<HotkeyChoice>,
}

/// A table of (value, label) shortcut choices, as text.
pub open spec fn table_view(t: Seq<(&'static str, &'static str)>) -> Seq<(Seq<char>, Seq<char>)> {
    Seq::new(t.len(), |i: int| (t[i].0@, t[i].1@))
}

/// The quick-thought hotkey choices.
pub open spec fn hotkey_table() -> Seq<(Seq<char>, Seq<char>)> {
    seq![
        ("CmdOrCtrl+Shift+M"@, "Cmd/Ctrl + Shift + M"@),
        ("CmdOrCtrl+Shift+J"@, "Cmd/Ctrl + Shift + J"@),
        ("CmdOrCtrl+Shift+T"@, "Cmd/Ctrl + Shift + T"@),
    ]
}

/// The dictation shortcut choices.
pub open spec fn dictation_table() -> Seq<(Seq<char>, Seq<char>)> {
    seq![
        ("CmdOrCtrl+Shift+Space"@, "Cmd/Ctrl + Shift + Space"@),
        ("CmdOrCtrl+Alt+Space"@, "Cmd/Ctrl + Option/Alt + Space"@),
        ("CmdOrCtrl+Shift+D"@, "Cmd/Ctrl + Shift + D"@),
    ]
}

/// The command palette shortcut choices.
pub open spec fn palette_table() -> Seq<(Seq<char>, Seq<char>)> {
    seq![
        ("CmdOrCtrl+Shift+K"@, "Cmd/Ctrl + Shift + K"@),
        ("CmdOrCtrl+Shift+O"@, "Cmd/Ctrl + Shift + O"@),
        ("CmdOrCtrl+Shift+U"@, "Cmd/Ctrl + Shift + U"@),
    ]
}

/// `hotkey_table()`.
pub fn hotkey_choice_table() -> (r: Vec<(&'static str, &'static str)>)
    ensures
        table_view(r@) == hotkey_table(),
{
    let r = vec![
        ("CmdOrCtrl+Shift+M", "Cmd/Ctrl + Shift + M"),
        ("CmdOrCtrl+Shift+J", "Cmd/Ctrl + Shift + J"),
        ("CmdOrCtrl+Shift+T", "Cmd/Ctrl + Shift + T"),
    ];
    assert(table_view(r@) =~= hotkey_table());
    r
}

/// `dictation_table()`.
pub fn dictation_choice_table() -> (r: Vec<(&'static str, &'static str)>)
    ensures
        table_view(r@) == dictation_table(),
{
    let r = vec![
        ("CmdOrCtrl+Shift+Space", "Cmd/Ctrl + Shift + Space"),
        ("CmdOrCtrl+Alt+Space", "Cmd/Ctrl + Option/Alt + Space"),
        ("CmdOrCtrl+Shift+D", "Cmd/Ctrl + Shift + D"),
    ];
    assert(table_view(r@) =~= dictation_table());
    r
}

/// `palette_table()`.
pub fn palette_choice_table() -> (r: Vec<(&'static str, &'static str)>)
    ensures
        table_view(r@) == palette_table(),
{
    let r = vec![
        ("CmdOrCtrl+Shift+K", "Cmd/Ctrl + Shift + K"),
        ("CmdOrCtrl+Shift+O", "Cmd/Ctrl + Shift + O"),
        ("CmdOrCtrl+Shift+U", "Cmd/Ctrl + Shift + U"),
    ];
    assert(table_view(r@) =~= palette_table());
    r
}

/// The default quick-thought hotkey: the first choice.
pub fn default_hotkey_shortcut() -> (r: &'static str)
    ensures
        r@ == hotkey_table()[0].0,
{
    "CmdOrCtrl+Shift+M"
}

/// The default dictation shortcut: the first choice.
pub fn default_dictation_shortcut() -> (r: &'static str)
    ensures
        r@ == dictation_table()[0].0,
{
    "CmdOrCtrl+Shift+Space"
}

/// The default palette shortcut: the first choice.
pub fn default_palette_shortcut() -> (r: &'static str)
    ensures
        r@ == palette_table()[0].0,
{
    "CmdOrCtrl+Shift+K"
}

/// The choices of a table, as the frontend receives them.
pub open spec fn choices_view(c: Seq<HotkeyChoice>) -> Seq<(Seq<char>, Seq<char>)> {
    Seq::new(c.len(), |i: int| (c[i].value@, c[i].label@))
}

/// The choices of `table`, in order.
pub fn shortcut_choices(table: &[(&'static str, &'static str)]) -> (r: Vec<HotkeyChoice>)
    ensures
        choices_view(r@) == table_view(table@),
{
    let mut r: Vec<HotkeyChoice> = Vec::new();
    let mut i: usize = 0;
    while i < table.len()
        invariant
            i <= table@.len(),
            choices_view(r@) == table_view(table@).take(i as int),
        decreases table@.len() - i,
    {
        let (value, label) = table[i];
        let ghost before = choices_view(r@);
        r.push(HotkeyChoice { value: value.to_owned(), label: label.to_owned() });
        assert(choices_view(r@) =~= before.push((value@, label@)));
        assert(table_view(table@).take(i + 1) =~= table_view(table@).take(i as int).push(
            (value@, label@),
        ));
        i = i + 1;
    }
    assert(table_view(table@).take(table@.len() as int) =~= table_view(table@));
    r
}

/// The quick-thought hotkey choices.
pub fn hotkey_choices() -> (r: Vec<HotkeyChoice>)
    ensures
        choices_view(r@) == hotkey_table(),
{
    shortcut_choices(hotkey_choice_table().as_slice())
}

/// The dictation shortcut choices.
pub fn dictation_shortcut_choices() -> (r: Vec<HotkeyChoice>)
    ensures
        choices_view(r@) == dictation_table(),
{
    shortcut_choices(dictation_choice_table().as_slice())
}

/// The palette shortcut choices.
pub fn palette_shortcut_choices() -> (r: Vec<HotkeyChoice>)
    ensures
        choices_view(r@) == palette_table(),
{
    shortcut_choices(palette_choice_table().as_slice())
}

/// Whether `shortcut` is one of the values of `table`.
pub open spec fn offered(table: Seq<(Seq<char>, Seq<char>)>, shortcut: Seq<char>) -> bool {
    exists|i: int| 0 <= i < table.len() && (#[trigger] table[i]).0 == shortcut
}

/// The labels of `table`, in order.
pub open spec fn labels(table: Seq<(Seq<char>, Seq<char>)>) -> Seq<Seq<char>> {
    Seq::new(table.len(), |i: int| table[i].1)
}

/// The message refusing a shortcut that is not offered.
pub open spec fn unsupported_message(shortcut: Seq<char>, table: Seq<(Seq<char>, Seq<char>)>) -> Seq<
    char,
> {
    "Unsupported shortcut: "@ + shortcut + ". Choose one of: "@ + text::join(labels(table), ", "@)
}

/// `shortcut` when `table` offers it; otherwise an error naming it and
/// listing the offered labels.
pub fn validate_shortcut(shortcut: &str, table: &[(&'static str, &'static str)]) -> (r: Result<
    String,
    String,
>)
    ensures
        offered(table_view(table@), shortcut@) ==> (r matches Ok(v) && v@ == shortcut@),
        !offered(table_view(table@), shortcut@) ==> (r matches Err(e) && e@ == unsupported_message(
            shortcut@,
            table_view(table@),
        )),
{
    let s = text::chars_of(shortcut);
    let ghost tv = table_view(table@);
    let mut i: usize = 0;
    while i < table.len()
        invariant
            i <= table@.len(),
            tv == table_view(table@),
            s@ == shortcut@,
            forall|k: int| 0 <= k < i ==> (#[trigger] tv[k]).0 != shortcut@,
        decreases table@.len() - i,
    {
        let (value, _) = table[i];
        assert(tv[i as int].0 == value@);
        if text::eq_lit(s.as_slice(), value) {
            return Ok(value.to_owned());
        }
        i = i + 1;
    }
    let mut ls: Vec<Vec<char>> = Vec::new();
    let mut j: usize = 0;
    while j < table.len()
        invariant
            j <= table@.len(),
            tv == table_view(table@),
            text::views(ls@) == labels(tv).take(j as int),
        decreases table@.len() - j,
    {
        let (_, label) = table[j];
        let ghost before = text::views(ls@);
        ls.push(text::chars_of(label));
        assert(text::views(ls@) =~= before.push(label@));
        assert(labels(tv).take(j + 1) =~= labels(tv).take(j as int).push(label@));
        j = j + 1;
    }
    assert(labels(tv).take(table@.len() as int) =~= labels(tv));
    let sep = text::chars_of(", ");
    let joined = text::join_chars(&ls, sep.as_slice());
    let mut msg = String::from_str("Unsupported shortcut: ");
    msg.append(shortcut);
    msg.append(". Choose one of: ");
    numbers::push_chars(&mut msg, joined.as_slice());
    Err(msg)
}

/// Validates a quick-thought hotkey.
pub fn validate_hotkey_shortcut(shortcut: &str) -> (r: Result<String, String>)
    ensures
        offered(hotkey_table(), shortcut@) ==> (r matches Ok(v) && v@ == shortcut@),
        !offered(hotkey_table(), shortcut@) ==> (r matches Err(e) && e@ == unsupported_message(
            shortcut@,
            hotkey_table(),
        )),
{
    validate_shortcut(shortcut, hotkey_choice_table().as_slice())
}

/// Validates a dictation shortcut.
pub fn validate_dictation_shortcut(shortcut: &str) -> (r: Result<String, String>)
    ensures
        offered(dictation_table(), shortcut@) ==> (r matches Ok(v) && v@ == shortcut@),
        !offered(dictation_table(), shortcut@) ==> (r matches Err(e) && e@ == unsupported_message(
            shortcut@,
            dictation_table(),
        )),
{
    validate_shortcut(shortcut, dictation_choice_table().as_slice())
}

/// Validates a palette shortcut.
pub fn validate_palette_shortcut(shortcut: &str) -> (r: Result<String, String>)
    ensures
        offered(palette_table(), shortcut@) ==> (r matches Ok(v) && v@ == shortcut@),
        !offered(palette_table(), shortcut@) ==> (r matches Err(e) && e@ == unsupported_message(
            shortcut@,
            palette_table(),
        )),
{
    validate_shortcut(shortcut, palette_choice_table().as_slice())
}

/// A feature's shortcut as the collision check sees it: its name, whether
/// it is enabled, and its shortcut when known.
pub open spec fn in_use_view(v: Seq<(&'static str, bool, Option<String>)>) -> Seq<(Seq<char>, bool, Option<Seq<char>>)> {
    Seq::new(v.len(), |i: int| (v[i].0@, v[i].1, text::opt_string(v[i].2)))
}

/// The first enabled feature whose shortcut is `candidate`.
pub open spec fn first_collision(v: Seq<(Seq<char>, bool, Option<Seq<char>>)>, candidate: Seq<char>) -> Option<Seq<char>>
    decreases v.len(),
{
    if v.len() == 0 {
        None
    } else if v[0].1 && v[0].2 == Some(candidate) {
        Some(v[0].0)
    } else {
        first_collision(v.drop_first(), candidate)
    }
}

/// Refuses `candidate` when an enabled feature already uses it, naming the
/// first such feature; disabled features do not count.
pub fn shortcut_collision_error(candidate: &str, in_use: &[(&'static str, bool, Option<String>)]) -> (r: Result<(), String>)
    ensures
        match first_collision(in_use_view(in_use@), candidate@) {
            Some(name) => r matches Err(e) && e@ == candidate@ + " is already used by the "@ + name
                + " shortcut"@,
            None => r is Ok,
        },
{
    let c = text::chars_of(candidate);
    let ghost uv = in_use_view(in_use@);
    let mut i: usize = 0;
    assert(uv.skip(0) =~= uv);
    while i < in_use.len()
        invariant
            i <= in_use@.len(),
            uv == in_use_view(in_use@),
            c@ == candidate@,
            first_collision(uv, candidate@) == first_collision(uv.skip(i as int), candidate@),
        decreases in_use@.len() - i,
    {
        let (name, enabled, value) = &in_use[i];
        assert(uv.skip(i as int)[0] == uv[i as int]);
        assert(uv.skip(i as int).drop_first() =~= uv.skip(i + 1));
        let same = match value {
            Some(v) => text::chars_eq(text::chars_of(v.as_str()).as_slice(), c.as_slice()),
            None => false,
        };
        if *enabled && same {
            return Err(numbers::concat4(candidate, " is already used by the ", name, " shortcut"));
        }
        i = i + 1;
    }
    assert(uv.skip(i as int) =~= Seq::<(Seq<char>, bool, Option<Seq<char>>)>::empty());
    Ok(())
}

/// The glyph for one `'+'`-separated piece of an accelerator: modifiers
/// become `⌘`, `⇧`, `⌥` or `⌃`; anything else stays as it is.
pub open spec fn glyph(piece: Seq<char>) -> Seq<char> {
    if piece == "CmdOrCtrl"@ || piece == "Cmd"@ || piece == "Command"@ || piece == "Meta"@ {
        seq!['\u{2318}']
    } else if piece == "Shift"@ {
        seq!['\u{21e7}']
    } else if piece == "Alt"@ || piece == "Option"@ || piece == "Opt"@ {
        seq!['\u{2325}']
    } else if piece == "Ctrl"@ || piece == "Control"@ {
        seq!['\u{2303}']
    } else {
        piece
    }
}

/// An accelerator rendered as key glyphs: its pieces' glyphs, concatenated.
pub open spec fn humanized(shortcut: Seq<char>) -> Seq<char> {
    let pieces = text::split_set(shortcut, seq!['+']);
    text::join(Seq::new(pieces.len(), |i: int| glyph(pieces[i])), Seq::empty())
}

fn glyph_chars(piece: &[char]) -> (r: Vec<char>)
    ensures
        r@ == glyph(piece@),
{
    if text::eq_lit(piece, "CmdOrCtrl") || text::eq_lit(piece, "Cmd") || text::eq_lit(piece, "Command")
        || text::eq_lit(piece, "Meta") {
        let r = vec!['\u{2318}'];
        assert(r@ =~= seq!['\u{2318}']);
        r
    } else if text::eq_lit(piece, "Shift") {
        let r = vec!['\u{21e7}'];
        assert(r@ =~= seq!['\u{21e7}']);
        r
    } else if text::eq_lit(piece, "Alt") || text::eq_lit(piece, "Option") || text::eq_lit(piece, "Opt") {
        let r = vec!['\u{2325}'];
        assert(r@ =~= seq!['\u{2325}']);
        r
    } else if text::eq_lit(piece, "Ctrl") || text::eq_lit(piece, "Control") {
        let r = vec!['\u{2303}'];
        assert(r@ =~= seq!['\u{2303}']);
        r
    } else {
        let r = text::copy_range(piece, 0, piece.len());
        assert(r@ =~= piece@);
        r
    }
}

/// `humanized(shortcut)`, as `"⌘⇧K"` for `"CmdOrCtrl+Shift+K"`.
pub fn humanize_shortcut(shortcut: &str) -> (r: String)
    ensures
        r@ == humanized(shortcut@),
{
    let s = text::chars_of(shortcut);
    let plus = vec!['+'];
    assert(plus@ =~= seq!['+']);
    let pieces = text::split_on(s.as_slice(), plus.as_slice());
    let ghost pv = text::views(pieces@);
    let mut glyphs: Vec<Vec<char>> = Vec::new();
    let mut i: usize = 0;
    while i < pieces.len()
        invariant
            i <= pieces@.len(),
            pv == text::views(pieces@),
            pv == text::split_set(shortcut@, seq!['+']),
            text::views(glyphs@) == Seq::new(i as nat, |k: int| glyph(pv[k])),
        decreases pieces@.len() - i,
    {
        let ghost before = text::views(glyphs@);
        assert(pv[i as int] == pieces@[i as int]@);
        let g = glyph_chars(pieces[i].as_slice());
        glyphs.push(g);
        assert(text::views(glyphs@) =~= before.push(glyph(pv[i as int])));
        assert(Seq::new((i + 1) as nat, |k: int| glyph(pv[k])) =~= Seq::new(i as nat, |k: int| glyph(pv[k])).push(glyph(pv[i as int])));
        i = i + 1;
    }
    let empty: Vec<char> = Vec::new();
    let joined = text::join_chars(&glyphs, empty.as_slice());
    assert(empty@ =~= Seq::<char>::empty());
    text::string_of(joined.as_slice())
}

/// How a hotkey-started capture is held.
#[derive(Debug, Clone, Copy, PartialEq, Eq, Structural)]
pub enum HotkeyCaptureStyle {
    Hold,
    Locked,
}

/// The quick-thought hotkey's press state. Times are milliseconds on a
/// monotonic clock.
#[derive(Debug, Clone, Copy)]
pub struct HotkeyRuntime {
    pub key_down: bool,
    pub key_down_started_at: Option<u64>,
    pub active_capture: Option<HotkeyCaptureStyle>,
    pub recording_started_at: Option<u64>,
    pub hold_generation: u64,
}

impl Default for HotkeyRuntime {
    fn default() -> (r: Self)
        ensures
            !r.key_down,
            r.key_down_started_at is None,
            r.active_capture is None,
            r.recording_started_at is None,
            r.hold_generation == 0,
    {
        HotkeyRuntime {
            key_down: false,
            key_down_started_at: None,
            active_capture: None,
            recording_started_at: None,
            hold_generation: 0,
        }
    }
}

/// Captures shorter than this are discarded.
pub const HOTKEY_MIN_DURATION_MS: u64 = 400;

/// Presses shorter than this are taps.
pub const HOTKEY_HOLD_THRESHOLD_MS: u64 = 300;

/// The time from `started` to `now`, never below zero.
pub open spec fn elapsed(started: u64, now: u64) -> int {
    if now >= started {
        now - started
    } else {
        0
    }
}

/// Whether a capture started at `started_at` is too short to keep at
/// `now`; with no start there is nothing to discard.
pub fn should_discard_hotkey_capture(started_at: Option<u64>, now: u64) -> (r: bool)
    ensures
        r == match started_at {
            Some(s) => elapsed(s, now) < HOTKEY_MIN_DURATION_MS,
            None => false,
        },
{
    match started_at {
        Some(started) => now.saturating_sub(started) < HOTKEY_MIN_DURATION_MS,
        None => false,
    }
}

/// Whether a press that started at `started_at` is a tap at `now`.
pub fn is_short_hotkey_tap(started_at: Option<u64>, now: u64) -> (r: bool)
    ensures
        r == match started_at {
            Some(s) => elapsed(s, now) < HOTKEY_HOLD_THRESHOLD_MS,
            None => false,
        },
{
    match started_at {
        Some(pressed) => now.saturating_sub(pressed) < HOTKEY_HOLD_THRESHOLD_MS,
        None => false,
    }
}

/// Forgets the hotkey's press and capture (the hold generation stays).
pub fn clear_hotkey_runtime(runtime: &mut HotkeyRuntime)
    ensures
        !final(runtime).key_down,
        final(runtime).key_down_started_at is None,
        final(runtime).active_capture is None,
        final(runtime).recording_started_at is None,
        final(runtime).hold_generation == old(runtime).hold_generation,
{
    runtime.key_down = false;
    runtime.key_down_started_at = None;
    runtime.active_capture = None;
    runtime.recording_started_at = None;
}

/// Forgets the hotkey's press and capture, and any pending discard.
pub fn reset_hotkey_capture_state(runtime: &mut HotkeyRuntime, discard_short_hotkey_capture: &mut bool)
    ensures
        !*final(discard_short_hotkey_capture),
        !final(runtime).key_down,
        final(runtime).key_down_started_at is None,
        final(runtime).active_capture is None,
        final(runtime).recording_started_at is None,
        final(runtime).hold_generation == old(runtime).hold_generation,
{
    *discard_short_hotkey_capture = false;
    clear_hotkey_runtime(runtime);
}

/// Whether a shortcut text uses only letters, digits, `+`, `_` and
/// spaces.
pub open spec fn shortcut_chars_ok(s: Seq<char>) -> bool {
    forall|i: int| 0 <= i < s.len() ==> text::char_alphanumeric(#[trigger] s[i]) || s[i] == '+' || s[i] == '_'
        || s[i] == ' '
}

/// Checks a requested shortcut and keycode: the shortcut takes at most 50
/// bytes, uses only letters, digits, `+`, `_` and spaces (or is empty),
/// and the keycode lies in -1..=255.
pub fn validate_shortcut_request(shortcut: &str, keycode: i64) -> (r: Result<(), String>)
    ensures
        text::utf8_len(shortcut@) > 50 ==> (r matches Err(e) && e@ == "Shortcut string too long (max 50 characters)"@),
        text::utf8_len(shortcut@) <= 50 && shortcut@.len() > 0 && !shortcut_chars_ok(shortcut@) ==> (r matches Err(e)
            && e@ == "Invalid characters in shortcut: "@ + shortcut@),
        text::utf8_len(shortcut@) <= 50 && (shortcut@.len() == 0 || shortcut_chars_ok(shortcut@)) && !(-1 <= keycode
            <= 255) ==> (r matches Err(e) && e@ == "Invalid keycode: "@ + numbers::signed_decimal(keycode as int)),
        text::utf8_len(shortcut@) <= 50 && (shortcut@.len() == 0 || shortcut_chars_ok(shortcut@)) && -1 <= keycode
            <= 255 ==> r is Ok,
{
    let s = text::chars_of(shortcut);
    if text::utf8_longer_than(s.as_slice(), 50) {
        return Err(String::from_str("Shortcut string too long (max 50 characters)"));
    }
    let mut i: usize = 0;
    let mut ok = true;
    while i < s.len()
        invariant
            i <= s@.len(),
            s@ == shortcut@,
            ok == (forall|k: int| 0 <= k < i ==> text::char_alphanumeric(#[trigger] s@[k]) || s@[k] == '+' || s@[k]
                == '_' || s@[k] == ' '),
        decreases s@.len() - i,
    {
        let c = s[i];
        let good = text::is_alphanumeric(c) || c == '+' || c == '_' || c == ' ';
        if !good {
            ok = false;
        }
        i = i + 1;
    }
    if s.len() > 0 && !ok {
        return Err(numbers::concat2("Invalid characters in shortcut: ", shortcut));
    }
    if keycode < -1 || keycode > 255 {
        let mut e = String::from_str("Invalid keycode: ");
        numbers::push_signed(&mut e, keycode);
        return Err(e);
    }
    Ok(())
}

/// The body of the one-time notice that introduces the command palette:
/// shown only while no marker records an earlier delivery and the palette
/// shortcut is on, naming the shortcut in glyphs.
pub fn palette_first_run_notice(marker_exists: bool, palette_enabled: bool, shortcut: &str) -> (r: Option<String>)
    ensures
        r is Some <==> !marker_exists && palette_enabled,
        r matches Some(body) ==> body@ == "Press "@ + humanized(shortcut@)
            + " to open the new command palette. Disable in Settings if it conflicts with your other apps."@,
{
    if marker_exists || !palette_enabled {
        return None;
    }
    let mut body = String::from_str("Press ");
    let glyphs = humanize_shortcut(shortcut);
    body.append(glyphs.as_str());
    body.append(" to open the new command palette. Disable in Settings if it conflicts with your other apps.");
    Some(body)
}

} // verus!
