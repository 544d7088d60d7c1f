//! Moving a global shortcut from one chord to another. The OS registration
//! is outside work, so the rebind is a small state machine: it names the
//! next registration call to make, is told how that call went, and ends by
//! committing the new setting or failing with the message the settings
//! screen shows. A failed registration puts the previous chord back before
//! the error is reported.

use crate::numbers;
use crate::text;
use vstd::prelude::*;

verus! {

/// Where a rebind stands.
#[derive(PartialEq, Eq, Structural, Clone, Copy, Debug)]
pub enum RebindStage {
    /// Waiting for the previous chord to be unregistered.
    Unregistering,
    /// Waiting for the new chord to be registered.
    Registering,
    /// The new chord was refused; waiting for the previous one to be
    /// registered again.
    RollingBack,
    /// Nothing more to do.
    Finished,
}

/// What the caller does next.
#[derive(Debug)]
pub enum RebindAction {
    /// Unregister this chord.
    Unregister(String),
    /// Register this chord.
    Register(String),
    /// Store the requested enabled flag and chord, and save them.
    Commit,
    /// Keep the stored setting and report this error.
    Fail(String),
    /// Store the shortcut as disabled, save that, and report this error.
    DisableAndFail(String),
}

/// A rebind as plain values.
pub ghost struct RebindView {
    pub previous_enabled: bool,
    pub previous: Seq<char>,
    pub enabled: bool,
    pub next: Seq<char>,
    pub palette: bool,
    pub stage: RebindStage,
    pub register_error: Seq<char>,
}

/// An action as plain values.
pub ghost enum ActionView {
    Unregister(Seq<char>),
    Register(Seq<char>),
    Commit,
    Fail(Seq<char>),
    DisableAndFail(Seq<char>),
}

pub open spec fn action_view(a: RebindAction) -> ActionView {
    match a {
        RebindAction::Unregister(s) => ActionView::Unregister(s@),
        RebindAction::Register(s) => ActionView::Register(s@),
        RebindAction::Commit => ActionView::Commit,
        RebindAction::Fail(s) => ActionView::Fail(s@),
        RebindAction::DisableAndFail(s) => ActionView::DisableAndFail(s@),
    }
}

/// One rebind of a global shortcut: from `previous` (registered when
/// `previous_enabled`) to `next` (to be registered when `enabled`). The
/// palette shortcut is the one that is switched off when even the previous
/// chord cannot be restored.
pub struct ShortcutRebind {
    pub previous_enabled: bool,
    pub previous: String,
    pub enabled: bool,
    pub next: String,
    pub palette: bool,
    pub stage: RebindStage,
    pub register_error: String,
}

impl View for ShortcutRebind {
    type V = RebindView;

    open spec fn view(&self) -> RebindView {
        RebindView {
            previous_enabled: self.previous_enabled,
            previous: self.previous@,
            enabled: self.enabled,
            next: self.next@,
            palette: self.palette,
            stage: self.stage,
            register_error: self.register_error@,
        }
    }
}

/// The error when the previous chord cannot be unregistered.
pub open spec fn unregister_message(palette: bool, previous: Seq<char>, error: Seq<char>) -> Seq<char> {
    if palette {
        "Could not unregister previous palette shortcut "@ + previous + ": "@ + error
    } else {
        "Could not unregister "@ + previous + ": "@ + error
    }
}

/// The error when the new chord cannot be registered.
pub open spec fn register_message(next: Seq<char>, error: Seq<char>) -> Seq<char> {
    "Could not register "@ + next + ". Another app may already be using it. ("@ + error + ")"@
}

/// The error when neither the new nor the previous palette chord could be
/// registered.
pub open spec fn lost_palette_message(next: Seq<char>) -> Seq<char> {
    "Could not register "@ + next
        + " and could not restore the previous shortcut. Palette shortcut is now disabled — set a different binding from Settings to re-enable."@
}

/// The first step of a rebind: unregister the previous chord if it is
/// registered, else register the new one if it is wanted, else commit.
pub open spec fn started(v: RebindView) -> (RebindView, ActionView) {
    if v.previous_enabled {
        (RebindView { stage: RebindStage::Unregistering, ..v }, ActionView::Unregister(v.previous))
    } else if v.enabled {
        (RebindView { stage: RebindStage::Registering, ..v }, ActionView::Register(v.next))
    } else {
        (RebindView { stage: RebindStage::Finished, ..v }, ActionView::Commit)
    }
}

/// The step after the last call came back, `None` for success and
/// `Some(error)` for a refusal.
pub open spec fn stepped(v: RebindView, failure: Option<Seq<char>>) -> (RebindView, ActionView) {
    match v.stage {
        RebindStage::Unregistering => match failure {
            Some(e) => (
                RebindView { stage: RebindStage::Finished, ..v },
                ActionView::Fail(unregister_message(v.palette, v.previous, e)),
            ),
            None => if v.enabled {
                (RebindView { stage: RebindStage::Registering, ..v }, ActionView::Register(v.next))
            } else {
                (RebindView { stage: RebindStage::Finished, ..v }, ActionView::Commit)
            },
        },
        RebindStage::Registering => match failure {
            None => (RebindView { stage: RebindStage::Finished, ..v }, ActionView::Commit),
            Some(e) => if v.previous_enabled {
                (
                    RebindView { stage: RebindStage::RollingBack, register_error: e, ..v },
                    ActionView::Register(v.previous),
                )
            } else {
                (
                    RebindView { stage: RebindStage::Finished, register_error: e, ..v },
                    ActionView::Fail(register_message(v.next, e)),
                )
            },
        },
        RebindStage::RollingBack => match failure {
            Some(_) => if v.palette {
                (
                    RebindView { stage: RebindStage::Finished, ..v },
                    ActionView::DisableAndFail(lost_palette_message(v.next)),
                )
            } else {
                (
                    RebindView { stage: RebindStage::Finished, ..v },
                    ActionView::Fail(register_message(v.next, v.register_error)),
                )
            },
            None => (
                RebindView { stage: RebindStage::Finished, ..v },
                ActionView::Fail(register_message(v.next, v.register_error)),
            ),
        },
        RebindStage::Finished => (v, ActionView::Commit),
    }
}

pub open spec fn failure_view(outcome: Result<(), String>) -> Option<Seq<char>> {
    match outcome {
        Ok(()) => None,
        Err(e) => Some(e@),
    }
}

/// How many registration calls a rebind at this stage may still make.
pub open spec fn calls_left(stage: RebindStage) -> nat {
    match stage {
        RebindStage::Unregistering => 3,
        RebindStage::Registering => 2,
        RebindStage::RollingBack => 1,
        RebindStage::Finished => 0,
    }
}

fn copy_string(s: &String) -> (r: String)
    ensures
        r@ == s@,
{
    String::from_str(s.as_str())
}

impl ShortcutRebind {
    /// Starts a rebind and names its first action.
    pub fn begin(previous_enabled: bool, previous: String, enabled: bool, next: String, palette: bool) -> (r: (
        Self,
        RebindAction,
    ))
        ensures
            (r.0@, action_view(r.1)) == started(
                RebindView {
                    previous_enabled,
                    previous: previous@,
                    enabled,
                    next: next@,
                    palette,
                    stage: RebindStage::Finished,
                    register_error: Seq::empty(),
                },
            ),
    {
        let mut rebind = ShortcutRebind {
            previous_enabled,
            previous,
            enabled,
            next,
            palette,
            stage: RebindStage::Finished,
            register_error: String::new(),
        };
        proof {
            assert(rebind.register_error@ == Seq::<char>::empty());
        }
        if previous_enabled {
            rebind.stage = RebindStage::Unregistering;
            let chord = copy_string(&rebind.previous);
            (rebind, RebindAction::Unregister(chord))
        } else if enabled {
            rebind.stage = RebindStage::Registering;
            let chord = copy_string(&rebind.next);
            (rebind, RebindAction::Register(chord))
        } else {
            (rebind, RebindAction::Commit)
        }
    }

    /// Takes the outcome of the call the last action asked for and names
    /// the next action.
    pub fn step(&mut self, outcome: Result<(), String>) -> (r: RebindAction)
        requires
            old(self).stage != RebindStage::Finished,
        ensures
            (final(self)@, action_view(r)) == stepped(old(self)@, failure_view(outcome)),
    {
        match self.stage {
            RebindStage::Unregistering => match outcome {
                Err(e) => {
                    self.stage = RebindStage::Finished;
                    let msg = if self.palette {
                        numbers::concat4(
                            "Could not unregister previous palette shortcut ",
                            self.previous.as_str(),
                            ": ",
                            e.as_str(),
                        )
                    } else {
                        numbers::concat4("Could not unregister ", self.previous.as_str(), ": ", e.as_str())
                    };
                    RebindAction::Fail(msg)
                },
                Ok(()) => {
                    if self.enabled {
                        self.stage = RebindStage::Registering;
                        RebindAction::Register(copy_string(&self.next))
                    } else {
                        self.stage = RebindStage::Finished;
                        RebindAction::Commit
                    }
                },
            },
            RebindStage::Registering => match outcome {
                Ok(()) => {
                    self.stage = RebindStage::Finished;
                    RebindAction::Commit
                },
                Err(e) => {
                    if self.previous_enabled {
                        self.stage = RebindStage::RollingBack;
                        self.register_error = e;
                        RebindAction::Register(copy_string(&self.previous))
                    } else {
                        self.stage = RebindStage::Finished;
                        let msg = numbers::concat5(
                            "Could not register ",
                            self.next.as_str(),
                            ". Another app may already be using it. (",
                            e.as_str(),
                            ")",
                        );
                        self.register_error = e;
                        RebindAction::Fail(msg)
                    }
                },
            },
            RebindStage::RollingBack => {
                self.stage = RebindStage::Finished;
                let lost = match outcome {
                    Ok(()) => false,
                    Err(_) => self.palette,
                };
                if lost {
                    RebindAction::DisableAndFail(
                        numbers::concat3(
                            "Could not register ",
                            self.next.as_str(),
                            " and could not restore the previous shortcut. Palette shortcut is now disabled — set a different binding from Settings to re-enable.",
                        ),
                    )
                } else {
                    RebindAction::Fail(
                        numbers::concat5(
                            "Could not register ",
                            self.next.as_str(),
                            ". Another app may already be using it. (",
                            self.register_error.as_str(),
                            ")",
                        ),
                    )
                }
            },
            RebindStage::Finished => RebindAction::Commit,
        }
    }
}

/// A rebind makes at most three registration calls: each step that is not
/// the last lowers the number of calls it may still make.
pub proof fn rebind_terminates(v: RebindView, failure: Option<Seq<char>>)
    requires
        v.stage != RebindStage::Finished,
    ensures
        calls_left(stepped(v, failure).0.stage) < calls_left(v.stage),
        stepped(v, failure).1 is Unregister || stepped(v, failure).1 is Register <==> stepped(v, failure).0.stage
            != RebindStage::Finished,
        calls_left(started(v).0.stage) <= 3,
        started(v).1 is Unregister || started(v).1 is Register <==> started(v).0.stage != RebindStage::Finished,
{
}

/// A wanted new chord is committed only after the OS accepted it: a step
/// that commits while the shortcut is enabled is the answer to a
/// successful registration of that chord.
pub proof fn enabled_commit_follows_registration(v: RebindView, failure: Option<Seq<char>>)
    requires
        v.stage != RebindStage::Finished,
        v.enabled,
        stepped(v, failure).1 is Commit,
    ensures
        v.stage == RebindStage::Registering,
        failure is None,
{
}

/// A refused new chord puts the previous chord back first: when the
/// registration fails and the previous chord was registered, the next
/// call registers the previous chord, and whatever that call answers, the
/// rebind fails without committing the new chord.
pub proof fn refused_chord_restores_previous(v: RebindView, e: Seq<char>, rollback: Option<Seq<char>>)
    requires
        v.stage == RebindStage::Registering,
        v.previous_enabled,
    ensures
        stepped(v, Some(e)).1 == ActionView::Register(v.previous),
        stepped(stepped(v, Some(e)).0, rollback).1 !is Commit,
        stepped(stepped(v, Some(e)).0, rollback).0.stage == RebindStage::Finished,
        rollback is None ==> stepped(stepped(v, Some(e)).0, rollback).1 == ActionView::Fail(
            register_message(v.next, e),
        ),
{
}

/// What a press of a toggling shortcut (dictation, live transcript) does.
#[derive(PartialEq, Eq, Structural, Clone, Copy, Debug)]
pub enum TogglePress {
    /// Nothing: the shortcut is off or the key went up.
    Ignore,
    /// Ask the running session to stop.
    Stop,
    /// Start a session.
    Start,
}

/// A shortcut event: ignored unless the shortcut is enabled and the key
/// went down; then it stops a running session or starts one.
pub fn toggle_press(enabled: bool, pressed: bool, active: bool) -> (r: TogglePress)
    ensures
        r == (if !enabled || !pressed {
            TogglePress::Ignore
        } else if active {
            TogglePress::Stop
        } else {
            TogglePress::Start
        }),
{
    if !enabled || !pressed {
        TogglePress::Ignore
    } else if active {
        TogglePress::Stop
    } else {
        TogglePress::Start
    }
}

/// The dictation shortcut may not be the chord of the quick-thought
/// shortcut; the error says so.
pub fn dictation_shortcut_conflict(next: &str, quick_thought: &str) -> (r: Result<(), String>)
    ensures
        next@ == quick_thought@ <==> r is Err,
        r matches Err(m) ==> m@ == next@
            + " is already used by the quick-thought shortcut. Choose a different dictation shortcut."@,
{
    if text::chars_eq(text::chars_of(next).as_slice(), text::chars_of(quick_thought).as_slice()) {
        Err(
            numbers::concat2(
                next,
                " is already used by the quick-thought shortcut. Choose a different dictation shortcut.",
            ),
        )
    } else {
        Ok(())
    }
}

} // verus!
