//! Call detection decisions: which running app counts as a call, when a
//! detected call is a new session or a reminder, and the pacing of the
//! slower browser probe for Google Meet. Times are milliseconds on a
//! monotonic clock supplied by the caller.

use crate::config::{self, CallDetectionConfig};
use crate::numbers;
use crate::text;
use vstd::prelude::*;

verus! {

/// Re-notify about the same ongoing call after this many milliseconds.
pub const SAME_APP_REMINDER_MS: u64 = 20_000;

/// The shortest gap between two browser probes.
pub const BROWSER_PROBE_INTERVAL_MS: u64 = 15_000;

/// How long a browser is left alone after its probe failed.
pub const BROWSER_PROBE_BACKOFF_MS: u64 = 300_000;

/// What the frontend is told when a call is detected.
#[derive(Debug, Clone)]
pub struct CallDetectedPayload {
    pub app_name: String,
    pub process_name: String,
    /// `true` for follow-up reminders about the same ongoing call.
    pub is_reminder: bool,
}

/// What noting an active call means for the user.
#[derive(Debug, Clone, Copy, PartialEq, Eq, Structural)]
pub enum DetectionTransition {
    NewSession,
    Reminder,
    Noop,
}

/// The call the detector last notified about.
#[derive(Debug, Clone)]
pub struct ActiveCallState {
    pub process_name: String,
    pub last_notified_ms: u64,
}

/// The detector's state besides its configuration.
#[derive(Debug, Clone)]
pub struct CallDetector {
    pub config: CallDetectionConfig,
    pub active_call: Option<ActiveCallState>,
    pub browser_probe_next_allowed_ms: Option<u64>,
    /// Per browser, the time until which it is not probed.
    pub browser_probe_backoff: Vec<(String, u64)>,
}

/// The active call as text and time.
pub open spec fn active_view(a: Option<ActiveCallState>) -> Option<(Seq<char>, u64)> {
    match a {
        Some(s) => Some((s.process_name@, s.last_notified_ms)),
        None => None,
    }
}

/// Noting that `name` is in a call at `now`: a new session when no call was
/// active or another app's was; a reminder when the same app's call was
/// last notified at least `SAME_APP_REMINDER_MS` ago (the elapsed time
/// never counts below zero); otherwise nothing. Gives the transition and
/// the new active call.
pub open spec fn note_call(active: Option<(Seq<char>, u64)>, name: Seq<char>, now: u64) -> (
    DetectionTransition,
    Option<(Seq<char>, u64)>,
) {
    match active {
        None => (DetectionTransition::NewSession, Some((name, now))),
        Some((p, last)) => if p != name {
            (DetectionTransition::NewSession, Some((name, now)))
        } else if now >= last && now - last >= SAME_APP_REMINDER_MS {
            (DetectionTransition::Reminder, Some((name, now)))
        } else {
            (DetectionTransition::Noop, active)
        },
    }
}

/// The backoff entries as text and time.
pub open spec fn backoff_view(v: Seq<(String, u64)>) -> Seq<(Seq<char>, u64)> {
    Seq::new(v.len(), |i: int| (v[i].0@, v[i].1))
}

/// Until when `app` is backed off: the time of its first entry, if any.
pub open spec fn backoff_until(v: Seq<(Seq<char>, u64)>, app: Seq<char>) -> Option<u64>
    decreases v.len(),
{
    if v.len() == 0 {
        None
    } else if v[0].0 == app {
        Some(v[0].1)
    } else {
        backoff_until(v.drop_first(), app)
    }
}

/// The predicate "an entry for another app than `app`".
pub open spec fn not_for(app: Seq<char>) -> spec_fn((Seq<char>, u64)) -> bool {
    |e: (Seq<char>, u64)| e.0 != app
}

/// The backoff entries without those for `app`.
pub open spec fn without_app(v: Seq<(Seq<char>, u64)>, app: Seq<char>) -> Seq<(Seq<char>, u64)> {
    v.filter(not_for(app))
}

/// Lemma: dropping `app`'s entries leaves every other app's time alone and
/// leaves `app` without one.
pub proof fn lemma_without_app(v: Seq<(Seq<char>, u64)>, app: Seq<char>, other: Seq<char>)
    ensures
        backoff_until(without_app(v, app), app) is None,
        other != app ==> backoff_until(without_app(v, app), other) == backoff_until(v, other),
    decreases v.len(),
{
    reveal(Seq::filter);
    let p = not_for(app);
    if v.len() > 0 {
        lemma_without_app(v.drop_first(), app, other);
        lemma_filter_front(v, p);
        let rest = v.drop_first().filter(p);
        if p(v[0]) {
            assert((seq![v[0]] + rest)[0] == v[0]);
            assert((seq![v[0]] + rest).drop_first() =~= rest);
        }
    } else {
        assert(v.filter(p).len() == 0);
    }
}

proof fn lemma_filter_front(v: Seq<(Seq<char>, u64)>, p: spec_fn((Seq<char>, u64)) -> bool)
    requires
        v.len() > 0,
    ensures
        v.filter(p) == if p(v[0]) {
            seq![v[0]] + v.drop_first().filter(p)
        } else {
            v.drop_first().filter(p)
        },
    decreases v.len(),
{
    reveal(Seq::filter);
    if v.len() == 1 {
        assert(v.drop_first() =~= Seq::<(Seq<char>, u64)>::empty());
        assert(v.drop_last() =~= Seq::<(Seq<char>, u64)>::empty());
        assert(v.drop_first().filter(p) =~= Seq::<(Seq<char>, u64)>::empty());
        if p(v[0]) {
            assert(v.filter(p) =~= seq![v[0]] + v.drop_first().filter(p));
        }
    } else {
        lemma_filter_front(v.drop_last(), p);
        assert(v.drop_last().drop_first() =~= v.drop_first().drop_last());
        assert(v.drop_first().last() == v.last());
        if p(v[0]) {
            assert(v.filter(p) =~= seq![v[0]] + v.drop_first().filter(p));
        } else {
            assert(v.filter(p) =~= v.drop_first().filter(p));
        }
    }
}

impl CallDetector {
    /// A detector with the given configuration, no active call and no
    /// pending probe pacing.
    pub fn new(config: CallDetectionConfig) -> (r: Self)
        ensures
            r.config == config,
            r.active_call is None,
            r.browser_probe_next_allowed_ms is None,
            r.browser_probe_backoff@.len() == 0,
    {
        CallDetector {
            config,
            active_call: None,
            browser_probe_next_allowed_ms: None,
            browser_probe_backoff: Vec::new(),
        }
    }

    /// Notes that `process_name` is in a call at `now_ms`; see `note_call`.
    pub fn note_active_call(&mut self, process_name: &str, now_ms: u64) -> (r: DetectionTransition)
        ensures
            (r, active_view(final(self).active_call)) == note_call(
                active_view(old(self).active_call),
                process_name@,
                now_ms,
            ),
            final(self).browser_probe_next_allowed_ms == old(self).browser_probe_next_allowed_ms,
            final(self).browser_probe_backoff@ == old(self).browser_probe_backoff@,
    {
        let name = text::chars_of(process_name);
        let fresh = ActiveCallState { process_name: process_name.to_owned(), last_notified_ms: now_ms };
        match &self.active_call {
            None => {
                self.active_call = Some(fresh);
                DetectionTransition::NewSession
            },
            Some(state) => {
                let same = text::chars_eq(
                    text::chars_of(state.process_name.as_str()).as_slice(),
                    name.as_slice(),
                );
                if !same {
                    self.active_call = Some(fresh);
                    DetectionTransition::NewSession
                } else if now_ms >= state.last_notified_ms && now_ms - state.last_notified_ms
                    >= SAME_APP_REMINDER_MS {
                    self.active_call = Some(fresh);
                    DetectionTransition::Reminder
                } else {
                    DetectionTransition::Noop
                }
            },
        }
    }

    /// Ends the active call, giving the app it was for.
    pub fn clear_active_call(&mut self) -> (r: Option<String>)
        ensures
            final(self).active_call is None,
            text::opt_string(r) == match active_view(old(self).active_call) {
                Some((p, _)) => Some(p),
                None => None,
            },
            final(self).browser_probe_next_allowed_ms == old(self).browser_probe_next_allowed_ms,
            final(self).browser_probe_backoff@ == old(self).browser_probe_backoff@,
    {
        let taken = self.active_call.take();
        match taken {
            Some(state) => Some(state.process_name),
            None => None,
        }
    }

    /// Whether a browser probe may run at `now_ms`: not while the pacing
    /// deadline is in the future; once it has passed it is cleared.
    pub fn browser_probe_due(&mut self, now_ms: u64) -> (r: bool)
        ensures
            r == match old(self).browser_probe_next_allowed_ms {
                Some(until) => now_ms >= until,
                None => true,
            },
            final(self).browser_probe_next_allowed_ms == if r {
                None
            } else {
                old(self).browser_probe_next_allowed_ms
            },
            active_view(final(self).active_call) == active_view(old(self).active_call),
            final(self).browser_probe_backoff@ == old(self).browser_probe_backoff@,
    {
        match self.browser_probe_next_allowed_ms {
            Some(until) => {
                if now_ms < until {
                    false
                } else {
                    self.browser_probe_next_allowed_ms = None;
                    true
                }
            },
            None => true,
        }
    }

    /// Paces the next browser probe `BROWSER_PROBE_INTERVAL_MS` after
    /// `now_ms` (at the end of the clock if that overflows).
    pub fn schedule_next_browser_probe(&mut self, now_ms: u64)
        ensures
            final(self).browser_probe_next_allowed_ms == Some(
                if now_ms + BROWSER_PROBE_INTERVAL_MS <= u64::MAX {
                    (now_ms + BROWSER_PROBE_INTERVAL_MS) as u64
                } else {
                    u64::MAX
                },
            ),
            active_view(final(self).active_call) == active_view(old(self).active_call),
            final(self).browser_probe_backoff@ == old(self).browser_probe_backoff@,
    {
        self.browser_probe_next_allowed_ms = Some(now_ms.saturating_add(BROWSER_PROBE_INTERVAL_MS));
    }

    /// Whether `browser_app` may be probed at `now_ms`: not while it is
    /// backed off; once its backoff has passed the entry is dropped.
    pub fn browser_probe_allowed_for(&mut self, browser_app: &str, now_ms: u64) -> (r: bool)
        ensures
            r == match backoff_until(backoff_view(old(self).browser_probe_backoff@), browser_app@) {
                Some(until) => now_ms >= until,
                None => true,
            },
            backoff_view(final(self).browser_probe_backoff@) == if r {
                without_app(backoff_view(old(self).browser_probe_backoff@), browser_app@)
            } else {
                backoff_view(old(self).browser_probe_backoff@)
            },
            active_view(final(self).active_call) == active_view(old(self).active_call),
            final(self).browser_probe_next_allowed_ms == old(self).browser_probe_next_allowed_ms,
    {
        let ghost bv = backoff_view(self.browser_probe_backoff@);
        let until = lookup_backoff(&self.browser_probe_backoff, browser_app);
        match until {
            Some(u) => {
                if now_ms < u {
                    return false;
                }
            },
            None => {},
        }
        let kept = drop_backoff(&self.browser_probe_backoff, browser_app);
        proof {
            if until is None {
                lemma_without_absent(bv, browser_app@);
            }
        }
        self.browser_probe_backoff = kept;
        true
    }

    /// Backs `browser_app` off for `BROWSER_PROBE_BACKOFF_MS` after `now_ms`
    /// (at the end of the clock if that overflows), replacing any earlier
    /// backoff for it.
    pub fn defer_browser_probe_for(&mut self, browser_app: &str, now_ms: u64)
        ensures
            backoff_view(final(self).browser_probe_backoff@) == without_app(
                backoff_view(old(self).browser_probe_backoff@),
                browser_app@,
            ).push((browser_app@, deferred_until(now_ms))),
            active_view(final(self).active_call) == active_view(old(self).active_call),
            final(self).browser_probe_next_allowed_ms == old(self).browser_probe_next_allowed_ms,
    {
        let mut kept = drop_backoff(&self.browser_probe_backoff, browser_app);
        let ghost before = backoff_view(kept@);
        kept.push((browser_app.to_owned(), now_ms.saturating_add(BROWSER_PROBE_BACKOFF_MS)));
        assert(backoff_view(kept@) =~= before.push((browser_app@, deferred_until(now_ms))));
        self.browser_probe_backoff = kept;
    }
}

/// The end of a backoff that starts at `now`.
pub open spec fn deferred_until(now: u64) -> u64 {
    if now + BROWSER_PROBE_BACKOFF_MS <= u64::MAX {
        (now + BROWSER_PROBE_BACKOFF_MS) as u64
    } else {
        u64::MAX
    }
}

proof fn lemma_without_absent(v: Seq<(Seq<char>, u64)>, app: Seq<char>)
    requires
        backoff_until(v, app) is None,
    ensures
        without_app(v, app) == v,
    decreases v.len(),
{
    reveal(Seq::filter);
    let p = not_for(app);
    if v.len() > 0 {
        lemma_without_absent(v.drop_first(), app);
        lemma_filter_front(v, p);
        assert(seq![v[0]] + v.drop_first() =~= v);
    } else {
        assert(without_app(v, app) =~= v);
    }
}

fn lookup_backoff(v: &Vec<(String, u64)>, app: &str) -> (r: Option<u64>)
    ensures
        r == backoff_until(backoff_view(v@), app@),
{
    let a = text::chars_of(app);
    let ghost bv = backoff_view(v@);
    let mut i: usize = 0;
    assert(bv.skip(0) =~= bv);
    while i < v.len()
        invariant
            i <= v@.len(),
            bv == backoff_view(v@),
            a@ == app@,
            backoff_until(bv, app@) == backoff_until(bv.skip(i as int), app@),
        decreases v@.len() - i,
    {
        assert(bv.skip(i as int)[0] == bv[i as int]);
        assert(bv.skip(i as int).drop_first() =~= bv.skip(i + 1));
        if text::chars_eq(text::chars_of(v[i].0.as_str()).as_slice(), a.as_slice()) {
            return Some(v[i].1);
        }
        i = i + 1;
    }
    assert(bv.skip(i as int) =~= Seq::<(Seq<char>, u64)>::empty());
    None
}

fn drop_backoff(v: &Vec<(String, u64)>, app: &str) -> (r: Vec<(String, u64)>)
    ensures
        backoff_view(r@) == without_app(backoff_view(v@), app@),
{
    let a = text::chars_of(app);
    let ghost bv = backoff_view(v@);
    let ghost p = not_for(app@);
    let mut r: Vec<(String, u64)> = Vec::new();
    let mut i: usize = 0;
    assert(bv.take(0) =~= Seq::<(Seq<char>, u64)>::empty());
    assert(backoff_view(r@) =~= bv.take(0).filter(p)) by {
        reveal(Seq::filter);
    }
    while i < v.len()
        invariant
            i <= v@.len(),
            bv == backoff_view(v@),
            a@ == app@,
            p == not_for(app@),
            backoff_view(r@) == bv.take(i as int).filter(p),
        decreases v@.len() - i,
    {
        assert(bv[i as int] == (v@[i as int].0@, v@[i as int].1));
        proof {
            bv.take(i as int).lemma_filter_push(bv[i as int], p);
        }
        assert(bv.take(i + 1) =~= bv.take(i as int).push(bv[i as int]));
        let ghost before = backoff_view(r@);
        if !text::chars_eq(text::chars_of(v[i].0.as_str()).as_slice(), a.as_slice()) {
            r.push((v[i].0.clone(), v[i].1));
            assert(backoff_view(r@) =~= before.push(bv[i as int]));
        }
        i = i + 1;
    }
    assert(bv.take(v@.len() as int) =~= bv);
    r
}

/// A detected call re-arms when it ends or moves to another app: after the
/// active call is cleared, or when another app is noted, the next note is a
/// new session; noting the same app again before the reminder interval is
/// nothing, and at or after it is a reminder.
pub proof fn call_session_rearms(active: Option<(Seq<char>, u64)>, name: Seq<char>, other: Seq<char>, now: u64, later: u64)
    ensures
        note_call(None, name, now).0 == DetectionTransition::NewSession,
        other != name ==> note_call(note_call(active, other, now).1, name, later).0
            == DetectionTransition::NewSession,
        now <= later < now + SAME_APP_REMINDER_MS ==> note_call(note_call(None, name, now).1, name, later).0
            == DetectionTransition::Noop,
        now + SAME_APP_REMINDER_MS <= later ==> note_call(note_call(None, name, now).1, name, later).0
            == DetectionTransition::Reminder,
{
}

/// A browser whose probe failed is skipped until its backoff ends and then
/// allowed again, while other browsers are unaffected.
pub proof fn browser_backoff_expires(v: Seq<(Seq<char>, u64)>, app: Seq<char>, other: Seq<char>, now: u64)
    ensures
        backoff_until(without_app(v, app).push((app, deferred_until(now))), app) == Some(
            deferred_until(now),
        ),
        other != app ==> backoff_until(without_app(v, app).push((app, deferred_until(now))), other)
            == backoff_until(v, other),
{
    lemma_without_app(v, app, other);
    lemma_until_push(without_app(v, app), app, deferred_until(now), app);
    lemma_until_push(without_app(v, app), app, deferred_until(now), other);
}

proof fn lemma_until_push(v: Seq<(Seq<char>, u64)>, app: Seq<char>, t: u64, key: Seq<char>)
    ensures
        backoff_until(v.push((app, t)), key) == match backoff_until(v, key) {
            Some(u) => Some(u),
            None => if key == app {
                Some(t)
            } else {
                None
            },
        },
    decreases v.len(),
{
    let w = v.push((app, t));
    if v.len() > 0 {
        lemma_until_push(v.drop_first(), app, t, key);
        assert(w[0] == v[0]);
        assert(w.drop_first() =~= v.drop_first().push((app, t)));
    } else {
        assert(w[0] == (app, t));
        assert(w.drop_first() =~= Seq::<(Seq<char>, u64)>::empty());
        assert(backoff_until(w.drop_first(), key) is None);
    }
}

/// The friendly name shown for a call app or the Google Meet sentinel.
pub open spec fn display_name(process: Seq<char>) -> Seq<char> {
    if process == "zoom.us"@ {
        "Zoom"@
    } else if process == "Microsoft Teams"@ || process == "Microsoft Teams (work or school)"@ {
        "Teams"@
    } else if process == "FaceTime"@ {
        "FaceTime"@
    } else if process == "Webex"@ {
        "Webex"@
    } else if process == "Slack"@ {
        "Slack"@
    } else if process == "google-meet"@ {
        "Google Meet"@
    } else {
        process
    }
}

/// `display_name(process)`.
pub fn display_name_for(process: &str) -> (r: String)
    ensures
        r@ == display_name(process@),
{
    let p = text::chars_of(process);
    if text::eq_lit(p.as_slice(), "zoom.us") {
        String::from_str("Zoom")
    } else if text::eq_lit(p.as_slice(), "Microsoft Teams") || text::eq_lit(
        p.as_slice(),
        "Microsoft Teams (work or school)",
    ) {
        String::from_str("Teams")
    } else if text::eq_lit(p.as_slice(), "FaceTime") {
        String::from_str("FaceTime")
    } else if text::eq_lit(p.as_slice(), "Webex") {
        String::from_str("Webex")
    } else if text::eq_lit(p.as_slice(), "Slack") {
        String::from_str("Slack")
    } else if text::eq_lit(p.as_slice(), "google-meet") {
        String::from_str("Google Meet")
    } else {
        process.to_owned()
    }
}

/// Whether `segment` looks like a Meet meeting code: three `'-'`-separated
/// runs of 3, 4 and 3 lower-case ASCII letters.
pub open spec fn meeting_code(segment: Seq<char>) -> bool {
    let parts = text::split_set(segment, seq!['-']);
    &&& parts.len() == 3
    &&& parts[0].len() == 3 && parts[1].len() == 4 && parts[2].len() == 3
    &&& forall|i: int, j: int|
        0 <= i < 3 && 0 <= j < parts[i].len() ==> text::is_ascii_lower(#[trigger] parts[i][j])
}

fn all_ascii_lower(s: &[char]) -> (r: bool)
    ensures
        r == forall|j: int| 0 <= j < s@.len() ==> text::is_ascii_lower(#[trigger] s@[j]),
{
    let mut i: usize = 0;
    while i < s.len()
        invariant
            i <= s@.len(),
            forall|j: int| 0 <= j < i ==> text::is_ascii_lower(#[trigger] s@[j]),
        decreases s@.len() - i,
    {
        if !('a' <= s[i] && s[i] <= 'z') {
            return false;
        }
        i = i + 1;
    }
    true
}

/// `meeting_code(segment)`.
pub fn looks_like_google_meet_meeting_code(segment: &str) -> (r: bool)
    ensures
        r == meeting_code(segment@),
{
    let s = text::chars_of(segment);
    let dash = vec!['-'];
    assert(dash@ =~= seq!['-']);
    let parts = text::split_on(s.as_slice(), dash.as_slice());
    let ghost pv = text::views(parts@);
    if parts.len() != 3 {
        return false;
    }
    assert(pv[0] == parts@[0]@ && pv[1] == parts@[1]@ && pv[2] == parts@[2]@);
    if parts[0].len() != 3 || parts[1].len() != 4 || parts[2].len() != 3 {
        return false;
    }
    let a = all_ascii_lower(parts[0].as_slice());
    let b = all_ascii_lower(parts[1].as_slice());
    let c = all_ascii_lower(parts[2].as_slice());
    proof {
        if a && b && c {
            assert forall|i: int, j: int| 0 <= i < 3 && 0 <= j < pv[i].len() implies text::is_ascii_lower(
                #[trigger] pv[i][j],
            ) by {
                if i == 0 {
                    assert(pv[0][j] == parts@[0]@[j]);
                } else if i == 1 {
                    assert(pv[1][j] == parts@[1]@[j]);
                } else {
                    assert(pv[2][j] == parts@[2]@[j]);
                }
            }
        } else if !a {
            let j = choose|j: int| 0 <= j < parts@[0]@.len() && !text::is_ascii_lower(parts@[0]@[j]);
            assert(!text::is_ascii_lower(pv[0][j]));
        } else if !b {
            let j = choose|j: int| 0 <= j < parts@[1]@.len() && !text::is_ascii_lower(parts@[1]@[j]);
            assert(!text::is_ascii_lower(pv[1][j]));
        } else {
            let j = choose|j: int| 0 <= j < parts@[2]@.len() && !text::is_ascii_lower(parts@[2]@[j]);
            assert(!text::is_ascii_lower(pv[2][j]));
        }
    }
    a && b && c
}

/// `s` without the literal prefix `p` when it has it.
pub open spec fn strip_lit(s: Seq<char>, p: Seq<char>) -> Option<Seq<char>> {
    if text::has_prefix(s, p) {
        Some(s.skip(p.len() as int))
    } else {
        None
    }
}

/// Whether `url` is a Google Meet meeting: trimmed and lowercased, after an
/// optional `https://` or `http://`, it is `meet.google.com/` followed by a
/// meeting code (up to the first `?`, `#` or `/`, trimmed).
pub open spec fn meet_meeting_url(url: Seq<char>) -> bool {
    let lower = text::lowercase(text::trim(url));
    let without_scheme = match strip_lit(lower, "https://"@) {
        Some(r) => r,
        None => match strip_lit(lower, "http://"@) {
            Some(r) => r,
            None => lower,
        },
    };
    match strip_lit(without_scheme, "meet.google.com/"@) {
        Some(rest) => meeting_code(text::trim(text::split_set(rest, seq!['?', '#', '/'])[0])),
        None => false,
    }
}

fn strip_lit_exec(s: &[char], lit: &str) -> (r: Option<Vec<char>>)
    ensures
        text::opt_seq(r) == strip_lit(s@, lit@),
{
    match text::prefix_len_if(s, lit) {
        Some(n) => Some(text::copy_range(s, n, s.len())),
        None => None,
    }
}

/// `meet_meeting_url(url)`.
pub fn looks_like_google_meet_meeting_url(url: &str) -> (r: bool)
    ensures
        r == meet_meeting_url(url@),
{
    let u = text::chars_of(url);
    let trimmed = text::trim_chars(u.as_slice());
    let lower = text::to_lowercase_chars(trimmed.as_slice());
    let without_scheme = match strip_lit_exec(lower.as_slice(), "https://") {
        Some(r) => r,
        None => match strip_lit_exec(lower.as_slice(), "http://") {
            Some(r) => r,
            None => lower,
        },
    };
    let rest = match strip_lit_exec(without_scheme.as_slice(), "meet.google.com/") {
        Some(r) => r,
        None => return false,
    };
    let seps = vec!['?', '#', '/'];
    assert(seps@ =~= seq!['?', '#', '/']);
    let pieces = text::split_on(rest.as_slice(), seps.as_slice());
    proof {
        text::lemma_split_by_len(rest@, text::one_of(seps@));
    }
    assert(text::views(pieces@)[0] == pieces@[0]@);
    let first = text::trim_chars(pieces[0].as_slice());
    let segment = text::string_of(first.as_slice());
    looks_like_google_meet_meeting_code(segment.as_str())
}

/// Whether running process `p` (lowercased) is call app `c` (lowercased):
/// the same name, or `c` followed by `'.'` or `' '` and more (not a mere
/// substring of a longer daemon name).
pub open spec fn process_is_app(p: Seq<char>, c: Seq<char>) -> bool {
    p == c || text::has_prefix(p, c.push('.')) || text::has_prefix(p, c.push(' '))
}

/// Whether any running process is call app `app`, ignoring case.
pub open spec fn app_running(running: Seq<Seq<char>>, app: Seq<char>) -> bool {
    exists|i: int|
        0 <= i < running.len() && process_is_app(
            text::lowercase(#[trigger] running[i]),
            text::lowercase(app),
        )
}

/// The first configured call app, other than the `"google-meet"` sentinel,
/// that is running.
pub open spec fn first_running_app(apps: Seq<Seq<char>>, running: Seq<Seq<char>>) -> Option<Seq<char>>
    decreases apps.len(),
{
    if apps.len() == 0 {
        None
    } else if apps[0] != "google-meet"@ && app_running(running, apps[0]) {
        Some(apps[0])
    } else {
        first_running_app(apps.drop_first(), running)
    }
}

fn app_running_exec(running: &Vec<String>, app: &str) -> (r: bool)
    ensures
        r == app_running(text::string_views(running@), app@),
{
    let a = text::chars_of(app);
    let c = text::to_lowercase_chars(a.as_slice());
    let mut dot = c.clone();
    dot.push('.');
    let mut sp = c.clone();
    sp.push(' ');
    let ghost rv = text::string_views(running@);
    let mut i: usize = 0;
    while i < running.len()
        invariant
            i <= running@.len(),
            rv == text::string_views(running@),
            c@ == text::lowercase(app@),
            dot@ == c@.push('.'),
            sp@ == c@.push(' '),
            forall|k: int|
                0 <= k < i ==> !process_is_app(text::lowercase(#[trigger] rv[k]), text::lowercase(app@)),
        decreases running@.len() - i,
    {
        let p = text::chars_of(running[i].as_str());
        let pl = text::to_lowercase_chars(p.as_slice());
        assert(rv[i as int] == running@[i as int]@);
        if text::chars_eq(pl.as_slice(), c.as_slice()) || text::starts_with(pl.as_slice(), dot.as_slice())
            || text::starts_with(pl.as_slice(), sp.as_slice()) {
            return true;
        }
        i = i + 1;
    }
    false
}

impl CallDetector {
    /// Whether the configured apps include the Google Meet sentinel.
    pub fn wants_google_meet(&self) -> (r: bool)
        ensures
            r == config::has_sentinel(text::string_views(self.config.apps@), "google-meet"@),
    {
        config::call_detection_has_sentinel(&self.config, "google-meet")
    }

    /// The first configured call app that is running, with its display
    /// name: `(display name, app)`.
    pub fn matching_call_app(&self, running: &Vec<String>) -> (r: Option<(String, String)>)
        ensures
            match r {
                Some((d, a)) => first_running_app(text::string_views(self.config.apps@), text::string_views(running@))
                    == Some(a@) && d@ == display_name(a@),
                None => first_running_app(text::string_views(self.config.apps@), text::string_views(running@)) is None,
            },
    {
        let ghost av = text::string_views(self.config.apps@);
        let ghost rv = text::string_views(running@);
        let apps = &self.config.apps;
        let mut i: usize = 0;
        assert(av.skip(0) =~= av);
        while i < apps.len()
            invariant
                i <= apps@.len(),
                apps@ == self.config.apps@,
                av == text::string_views(apps@),
                rv == text::string_views(running@),
                first_running_app(av, rv) == first_running_app(av.skip(i as int), rv),
            decreases apps@.len() - i,
        {
            assert(av.skip(i as int)[0] == apps@[i as int]@);
            assert(av.skip(i as int).drop_first() =~= av.skip(i + 1));
            let app = apps[i].as_str();
            let is_meet = text::eq_lit(text::chars_of(app).as_slice(), "google-meet");
            if !is_meet && app_running_exec(running, app) {
                return Some((display_name_for(app), app.to_owned()));
            }
            i = i + 1;
        }
        assert(av.skip(i as int) =~= Seq::<Seq<char>>::empty());
        None
    }
}

/// How a browser's tabs are read.
#[derive(Debug, Clone, Copy, PartialEq, Eq, Structural)]
pub enum BrowserKind {
    ChromeLike,
    Safari,
}

/// What reading a browser's tab URLs gave.
#[derive(Debug, Clone)]
pub enum AppleScriptProbe {
    Urls(Vec<String>),
    PermissionDenied,
    Error,
}

/// The browsers probed for Google Meet, in order: the fragment of a running
/// process name that shows the browser runs, its application name, and how
/// its tabs are read.
pub open spec fn browser(i: nat) -> (Seq<char>, Seq<char>, BrowserKind) {
    if i == 0 {
        ("google chrome"@, "Google Chrome"@, BrowserKind::ChromeLike)
    } else if i == 1 {
        ("chrome canary"@, "Google Chrome Canary"@, BrowserKind::ChromeLike)
    } else if i == 2 {
        ("chromium"@, "Chromium"@, BrowserKind::ChromeLike)
    } else {
        ("safari"@, "Safari"@, BrowserKind::Safari)
    }
}

/// How many browsers are probed.
pub const BROWSER_COUNT: usize = 4;

/// `browser(i)`.
pub fn browser_entry(i: usize) -> (r: (&'static str, &'static str, BrowserKind))
    requires
        i < BROWSER_COUNT,
    ensures
        (r.0@, r.1@, r.2) == browser(i as nat),
{
    if i == 0 {
        ("google chrome", "Google Chrome", BrowserKind::ChromeLike)
    } else if i == 1 {
        ("chrome canary", "Google Chrome Canary", BrowserKind::ChromeLike)
    } else if i == 2 {
        ("chromium", "Chromium", BrowserKind::ChromeLike)
    } else {
        ("safari", "Safari", BrowserKind::Safari)
    }
}

/// Whether a browser may be probed at `now` given the backoffs.
pub open spec fn probe_allowed(bv: Seq<(Seq<char>, u64)>, app: Seq<char>, now: u64) -> bool {
    match backoff_until(bv, app) {
        Some(until) => now >= until,
        None => true,
    }
}

/// Whether some lowercased running process name contains `fragment`.
pub open spec fn some_contains(running_lower: Seq<Seq<char>>, fragment: Seq<char>) -> bool {
    exists|i: int| 0 <= i < running_lower.len() && text::contains(#[trigger] running_lower[i], fragment)
}

/// The first browser at or after `from` that runs and may be probed.
pub open spec fn next_probe(bv: Seq<(Seq<char>, u64)>, running_lower: Seq<Seq<char>>, from: nat, now: u64) -> Option<nat>
    decreases 4 - from,
{
    if from >= 4 {
        None
    } else if some_contains(running_lower, browser(from).0) && probe_allowed(bv, browser(from).1, now) {
        Some(from)
    } else {
        next_probe(bv, running_lower, from + 1, now)
    }
}

fn some_contains_exec(running_lower: &Vec<Vec<char>>, fragment: &str) -> (r: bool)
    ensures
        r == some_contains(text::views(running_lower@), fragment@),
{
    let f = text::chars_of(fragment);
    let ghost rv = text::views(running_lower@);
    let mut i: usize = 0;
    while i < running_lower.len()
        invariant
            i <= running_lower@.len(),
            rv == text::views(running_lower@),
            f@ == fragment@,
            forall|k: int| 0 <= k < i ==> !text::contains(#[trigger] rv[k], fragment@),
        decreases running_lower@.len() - i,
    {
        assert(rv[i as int] == running_lower@[i as int]@);
        if text::find_chars(running_lower[i].as_slice(), f.as_slice(), 0).is_some() {
            return true;
        }
        i = i + 1;
    }
    false
}

/// The lowercased names of the running processes.
pub fn lowercase_all(running: &Vec<String>) -> (r: Vec<Vec<char>>)
    ensures
        text::views(r@) == Seq::new(running@.len(), |i: int| text::lowercase(running@[i]@)),
{
    let mut r: Vec<Vec<char>> = Vec::new();
    let mut i: usize = 0;
    while i < running.len()
        invariant
            i <= running@.len(),
            text::views(r@) == Seq::new(i as nat, |k: int| text::lowercase(running@[k]@)),
        decreases running@.len() - i,
    {
        let ghost before = text::views(r@);
        let l = text::to_lowercase_chars(text::chars_of(running[i].as_str()).as_slice());
        assert(l@ == text::lowercase(running@[i as int]@));
        r.push(l);
        assert(text::views(r@) =~= before.push(text::lowercase(running@[i as int]@)));
        assert(text::views(r@) =~= Seq::new((i + 1) as nat, |k: int| text::lowercase(running@[k]@)));
        i = i + 1;
    }
    r
}

/// Whether some URL is a Google Meet meeting.
pub open spec fn any_meet_url(urls: Seq<Seq<char>>) -> bool {
    exists|i: int| 0 <= i < urls.len() && meet_meeting_url(#[trigger] urls[i])
}

fn any_meet(urls: &Vec<String>) -> (r: bool)
    ensures
        r == any_meet_url(text::string_views(urls@)),
{
    let ghost uv = text::string_views(urls@);
    let mut i: usize = 0;
    while i < urls.len()
        invariant
            i <= urls@.len(),
            uv == text::string_views(urls@),
            forall|k: int| 0 <= k < i ==> !meet_meeting_url(#[trigger] uv[k]),
        decreases urls@.len() - i,
    {
        assert(uv[i as int] == urls@[i as int]@);
        if looks_like_google_meet_meeting_url(urls[i].as_str()) {
            assert(meet_meeting_url(uv[i as int]));
            return true;
        }
        i = i + 1;
    }
    false
}

impl CallDetector {
    /// The next browser to probe for Google Meet, starting at `from`: the
    /// first that is running (by `running_lower`, the lowercased process
    /// names) and not backed off at `now_ms`, with how to read its tabs.
    /// Passing over a browser whose backoff has ended drops that backoff.
    pub fn next_browser_probe(&mut self, running_lower: &Vec<Vec<char>>, from: usize, now_ms: u64) -> (r: Option<(usize, BrowserKind)>)
        ensures
            match r {
                Some((i, kind)) => next_probe(backoff_view(old(self).browser_probe_backoff@), text::views(running_lower@), from as nat, now_ms) == Some(i as nat)
                    && kind == browser(i as nat).2
                    && i < BROWSER_COUNT
                    && backoff_view(final(self).browser_probe_backoff@) == without_app(backoff_view(old(self).browser_probe_backoff@), browser(i as nat).1),
                None => next_probe(backoff_view(old(self).browser_probe_backoff@), text::views(running_lower@), from as nat, now_ms) is None
                    && final(self).browser_probe_backoff@ == old(self).browser_probe_backoff@,
            },
            active_view(final(self).active_call) == active_view(old(self).active_call),
            final(self).browser_probe_next_allowed_ms == old(self).browser_probe_next_allowed_ms,
    {
        let ghost bv = backoff_view(self.browser_probe_backoff@);
        let ghost rv = text::views(running_lower@);
        let mut i = from;
        while i < BROWSER_COUNT
            invariant
                from <= i || from > BROWSER_COUNT,
                bv == backoff_view(self.browser_probe_backoff@),
                self.browser_probe_backoff@ == old(self).browser_probe_backoff@,
                active_view(self.active_call) == active_view(old(self).active_call),
                self.browser_probe_next_allowed_ms == old(self).browser_probe_next_allowed_ms,
                rv == text::views(running_lower@),
                next_probe(bv, rv, from as nat, now_ms) == next_probe(bv, rv, i as nat, now_ms),
            decreases BROWSER_COUNT - i,
        {
            let (fragment, app, kind) = browser_entry(i);
            if some_contains_exec(running_lower, fragment) {
                let until = lookup_backoff(&self.browser_probe_backoff, app);
                let allowed = match until {
                    Some(u) => now_ms >= u,
                    None => true,
                };
                if allowed {
                    let ok = self.browser_probe_allowed_for(app, now_ms);
                    assert(ok);
                    return Some((i, kind));
                }
            }
            i = i + 1;
        }
        None
    }

    /// Records what probing browser `index` at `now_ms` gave: whether one of
    /// its tabs is a Meet meeting; a refused or failed probe backs the
    /// browser off.
    pub fn record_browser_probe(&mut self, index: usize, probe: &AppleScriptProbe, now_ms: u64) -> (r: bool)
        requires
            index < BROWSER_COUNT,
        ensures
            match probe {
                AppleScriptProbe::Urls(urls) => r == any_meet_url(text::string_views(urls@))
                    && final(self).browser_probe_backoff@ == old(self).browser_probe_backoff@,
                _ => !r && backoff_view(final(self).browser_probe_backoff@) == without_app(
                    backoff_view(old(self).browser_probe_backoff@),
                    browser(index as nat).1,
                ).push((browser(index as nat).1, deferred_until(now_ms))),
            },
            active_view(final(self).active_call) == active_view(old(self).active_call),
            final(self).browser_probe_next_allowed_ms == old(self).browser_probe_next_allowed_ms,
    {
        let (_, app, _) = browser_entry(index);
        match probe {
            AppleScriptProbe::Urls(urls) => any_meet(urls),
            _ => {
                self.defer_browser_probe_for(app, now_ms);
                false
            },
        }
    }
}

/// What an AppleScript tab query gave, from its exit status and output:
/// on success the output's non-empty lines, trimmed; on failure a refusal
/// when the lowercased error output mentions `not authorized`,
/// `not permitted` or `(-1743)`, else an error.
pub open spec fn applescript_outcome_urls(stdout: Seq<char>) -> Seq<Seq<char>> {
    text::non_empty(Seq::new(text::lines(stdout).len(), |i: int| text::trim(text::lines(stdout)[i])))
}

/// Whether lowercased error output means Apple Events were refused.
pub open spec fn permission_refused(stderr: Seq<char>) -> bool {
    let l = text::lowercase(stderr);
    text::contains(l, "not authorized"@) || text::contains(l, "not permitted"@) || text::contains(l, "(-1743)"@)
}

/// Classifies an AppleScript tab query by its exit status and output.
pub fn parse_applescript_output(success: bool, stdout: &str, stderr: &str) -> (r: AppleScriptProbe)
    ensures
        success ==> (r matches AppleScriptProbe::Urls(urls) && text::string_views(urls@) == applescript_outcome_urls(stdout@)),
        !success && permission_refused(stderr@) ==> r is PermissionDenied,
        !success && !permission_refused(stderr@) ==> r is Error,
{
    if success {
        let lines = text::lines_of(text::chars_of(stdout).as_slice());
        let ghost lv = text::views(lines@);
        let mut trimmed: Vec<Vec<char>> = Vec::new();
        let mut i: usize = 0;
        while i < lines.len()
            invariant
                i <= lines@.len(),
                lv == text::views(lines@),
                lv == text::lines(stdout@),
                text::views(trimmed@) == Seq::new(i as nat, |k: int| text::trim(lv[k])),
            decreases lines@.len() - i,
        {
            let ghost before = text::views(trimmed@);
            assert(lv[i as int] == lines@[i as int]@);
            let tl = text::trim_chars(lines[i].as_slice());
            trimmed.push(tl);
            assert(text::views(trimmed@) =~= before.push(text::trim(lv[i as int])));
            assert(text::views(trimmed@) =~= Seq::new((i + 1) as nat, |k: int| text::trim(lv[k])));
            i = i + 1;
        }
        let kept = text::keep_non_empty(trimmed);
        let urls = text::strings_of(&kept);
        return AppleScriptProbe::Urls(urls);
    }
    let e = text::chars_of(stderr);
    let l = text::to_lowercase_chars(e.as_slice());
    let a = text::lit_chars("not authorized");
    let b = text::lit_chars("not permitted");
    let c = text::lit_chars("(-1743)");
    if text::find_chars(l.as_slice(), a.as_slice(), 0).is_some() || text::find_chars(l.as_slice(), b.as_slice(), 0).is_some()
        || text::find_chars(l.as_slice(), c.as_slice(), 0).is_some() {
        AppleScriptProbe::PermissionDenied
    } else {
        AppleScriptProbe::Error
    }
}

/// The AppleScript that lists the URLs of every tab of `app_name`, one per
/// line (the same for both kinds of browser).
pub open spec fn tab_urls_script(app_name: Seq<char>) -> Seq<char> {
    "tell application \""@ + app_name
        + "\"\nset output to \"\"\nrepeat with w in windows\n  repeat with t in tabs of w\n    set output to output & (URL of t as text) & linefeed\n  end repeat\nend repeat\nreturn output\nend tell"@
}

/// `tab_urls_script(app_name)`: what is run to read a browser's tabs.
pub fn query_browser_urls(app_name: &str, kind: BrowserKind) -> (r: String)
    ensures
        r@ == tab_urls_script(app_name@),
{
    match kind {
        BrowserKind::ChromeLike => numbers::concat3(
            "tell application \"",
            app_name,
            "\"\nset output to \"\"\nrepeat with w in windows\n  repeat with t in tabs of w\n    set output to output & (URL of t as text) & linefeed\n  end repeat\nend repeat\nreturn output\nend tell",
        ),
        BrowserKind::Safari => numbers::concat3(
            "tell application \"",
            app_name,
            "\"\nset output to \"\"\nrepeat with w in windows\n  repeat with t in tabs of w\n    set output to output & (URL of t as text) & linefeed\n  end repeat\nend repeat\nreturn output\nend tell",
        ),
    }
}

/// What one poll of the call detector leads to.
#[derive(Debug, Clone)]
pub enum PollOutcome {
    /// A recording holds the microphone: the poll was skipped.
    Skipped,
    /// Tell the frontend about the call; show a notification too for a new
    /// session (not for a reminder).
    Announce { payload: CallDetectedPayload, show_notification: bool },
    /// The call was already announced recently.
    Quiet,
    /// No call: the active one (if any) ended.
    Cleared(Option<String>),
}

/// The seconds between polls: the configured interval, at least one.
pub fn poll_interval_secs(config: &CallDetectionConfig) -> (r: u64)
    ensures
        r == (if config.poll_interval_secs < 1 {
            1
        } else {
            config.poll_interval_secs
        }),
{
    if config.poll_interval_secs < 1 {
        1
    } else {
        config.poll_interval_secs
    }
}

/// The title of the notification for a new call in `display_name`.
pub fn call_notification_title(display_name: &str) -> (r: String)
    ensures
        r@ == display_name@ + " call detected"@,
{
    numbers::concat2(display_name, " call detected")
}

impl CallDetector {
    /// One poll at `now_ms`: skipped while recording; a detected call
    /// (display name and process) is noted and announced unless it was
    /// announced recently (see `note_call`); no call clears the active one.
    pub fn poll(&mut self, recording: bool, detected: Option<(String, String)>, now_ms: u64) -> (r: PollOutcome)
        ensures
            recording ==> r is Skipped && active_view(final(self).active_call) == active_view(old(self).active_call),
            !recording ==> match detected {
                Some((display, process)) => {
                    let (t, active) = note_call(active_view(old(self).active_call), process@, now_ms);
                    &&& active_view(final(self).active_call) == active
                    &&& match t {
                        DetectionTransition::Noop => r is Quiet,
                        _ => r matches PollOutcome::Announce { payload, show_notification } && payload.app_name@
                            == display@ && payload.process_name@ == process@ && payload.is_reminder == (t
                            == DetectionTransition::Reminder) && show_notification == (t
                            == DetectionTransition::NewSession),
                    }
                },
                None => {
                    &&& final(self).active_call is None
                    &&& r matches PollOutcome::Cleared(p) && text::opt_string(p) == match active_view(
                        old(self).active_call,
                    ) {
                        Some((name, _)) => Some(name),
                        None => None,
                    }
                },
            },
            final(self).browser_probe_next_allowed_ms == old(self).browser_probe_next_allowed_ms,
            final(self).browser_probe_backoff@ == old(self).browser_probe_backoff@,
    {
        if recording {
            return PollOutcome::Skipped;
        }
        match detected {
            Some((display, process)) => {
                let t = self.note_active_call(process.as_str(), now_ms);
                match t {
                    DetectionTransition::Noop => PollOutcome::Quiet,
                    _ => {
                        let is_reminder = t == DetectionTransition::Reminder;
                        PollOutcome::Announce {
                            payload: CallDetectedPayload { app_name: display, process_name: process, is_reminder },
                            show_notification: !is_reminder,
                        }
                    },
                }
            },
            None => PollOutcome::Cleared(self.clear_active_call()),
        }
    }
}

/// A call app whose process runs under its configured name (ignoring case)
/// is detected: whenever some configured app other than the Meet sentinel
/// has a running process of exactly that name, the detector names a
/// configured, non-sentinel app that is running.
pub proof fn exactly_named_app_is_detected(apps: Seq<Seq<char>>, running: Seq<Seq<char>>, k: int, i: int)
    requires
        0 <= k < apps.len(),
        apps[k] != "google-meet"@,
        0 <= i < running.len(),
        text::lowercase(running[i]) == text::lowercase(apps[k]),
    ensures
        first_running_app(apps, running) matches Some(a) && apps.contains(a) && a != "google-meet"@
            && app_running(running, a),
    decreases apps.len(),
{
    assert(process_is_app(text::lowercase(running[i]), text::lowercase(apps[k])));
    assert(app_running(running, apps[k]));
    if apps[0] != "google-meet"@ && app_running(running, apps[0]) {
        assert(apps.contains(apps[0]));
    } else {
        assert(k > 0);
        let rest = apps.drop_first();
        assert(rest[k - 1] == apps[k]);
        exactly_named_app_is_detected(rest, running, k - 1, i);
        let a = first_running_app(rest, running)->0;
        assert(rest.contains(a));
        let m = choose|m: int| 0 <= m < rest.len() && rest[m] == a;
        assert(apps[m + 1] == a);
    }
}

} // verus!
