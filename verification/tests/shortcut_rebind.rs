use minutes_core::shortcut_rebind::{
    dictation_shortcut_conflict, toggle_press, RebindAction, RebindStage, ShortcutRebind, TogglePress,
};

fn text_of(action: &RebindAction) -> String {
    match action {
        RebindAction::Unregister(s) => format!("unregister {}", s),
        RebindAction::Register(s) => format!("register {}", s),
        RebindAction::Commit => "commit".to_string(),
        RebindAction::Fail(s) => format!("fail {}", s),
        RebindAction::DisableAndFail(s) => format!("disable {}", s),
    }
}

#[test]
fn rebind_moves_an_enabled_shortcut() {
    let (mut rebind, first) =
        ShortcutRebind::begin(true, "CmdOrCtrl+Shift+M".into(), true, "CmdOrCtrl+Shift+K".into(), false);
    assert_eq!(text_of(&first), "unregister CmdOrCtrl+Shift+M");
    let second = rebind.step(Ok(()));
    assert_eq!(text_of(&second), "register CmdOrCtrl+Shift+K");
    let third = rebind.step(Ok(()));
    assert_eq!(text_of(&third), "commit");
    assert_eq!(rebind.stage, RebindStage::Finished);
}

#[test]
fn rebind_of_a_disabled_shortcut_to_disabled_commits_at_once() {
    let (rebind, first) = ShortcutRebind::begin(false, "A".into(), false, "B".into(), false);
    assert_eq!(text_of(&first), "commit");
    assert_eq!(rebind.stage, RebindStage::Finished);
}

#[test]
fn rebind_enabling_registers_without_unregistering() {
    let (mut rebind, first) = ShortcutRebind::begin(false, "A".into(), true, "B".into(), false);
    assert_eq!(text_of(&first), "register B");
    assert_eq!(text_of(&rebind.step(Ok(()))), "commit");
}

#[test]
fn rebind_disabling_only_unregisters() {
    let (mut rebind, first) = ShortcutRebind::begin(true, "A".into(), false, "B".into(), false);
    assert_eq!(text_of(&first), "unregister A");
    assert_eq!(text_of(&rebind.step(Ok(()))), "commit");
}

#[test]
fn rebind_unregister_failure_is_reported() {
    let (mut rebind, _) = ShortcutRebind::begin(true, "A".into(), true, "B".into(), false);
    let action = rebind.step(Err("busy".into()));
    assert_eq!(text_of(&action), "fail Could not unregister A: busy");

    let (mut palette, _) = ShortcutRebind::begin(true, "A".into(), true, "B".into(), true);
    let action = palette.step(Err("busy".into()));
    assert_eq!(text_of(&action), "fail Could not unregister previous palette shortcut A: busy");
}

#[test]
fn rebind_refused_chord_restores_previous_then_fails() {
    let (mut rebind, _) = ShortcutRebind::begin(true, "A".into(), true, "B".into(), false);
    rebind.step(Ok(()));
    let rollback = rebind.step(Err("taken".into()));
    assert_eq!(text_of(&rollback), "register A");
    let end = rebind.step(Ok(()));
    assert_eq!(
        text_of(&end),
        "fail Could not register B. Another app may already be using it. (taken)"
    );
}

#[test]
fn rebind_refused_chord_without_previous_fails_directly() {
    let (mut rebind, _) = ShortcutRebind::begin(false, "A".into(), true, "B".into(), true);
    let end = rebind.step(Err("taken".into()));
    assert_eq!(
        text_of(&end),
        "fail Could not register B. Another app may already be using it. (taken)"
    );
}

#[test]
fn rebind_lost_rollback_disables_the_palette() {
    let (mut rebind, _) = ShortcutRebind::begin(true, "A".into(), true, "B".into(), true);
    rebind.step(Ok(()));
    rebind.step(Err("taken".into()));
    let end = rebind.step(Err("also taken".into()));
    assert_eq!(
        text_of(&end),
        "disable Could not register B and could not restore the previous shortcut. Palette shortcut is now disabled — set a different binding from Settings to re-enable."
    );
}

#[test]
fn rebind_lost_rollback_of_other_shortcuts_reports_the_registration_error() {
    let (mut rebind, _) = ShortcutRebind::begin(true, "A".into(), true, "B".into(), false);
    rebind.step(Ok(()));
    rebind.step(Err("taken".into()));
    let end = rebind.step(Err("also taken".into()));
    assert_eq!(
        text_of(&end),
        "fail Could not register B. Another app may already be using it. (taken)"
    );
}

#[test]
fn toggle_press_decides_by_state() {
    assert_eq!(toggle_press(false, true, false), TogglePress::Ignore);
    assert_eq!(toggle_press(true, false, true), TogglePress::Ignore);
    assert_eq!(toggle_press(true, true, true), TogglePress::Stop);
    assert_eq!(toggle_press(true, true, false), TogglePress::Start);
}

#[test]
fn dictation_shortcut_may_not_reuse_quick_thought_chord() {
    assert!(dictation_shortcut_conflict("CmdOrCtrl+Shift+Space", "CmdOrCtrl+Shift+M").is_ok());
    assert_eq!(
        dictation_shortcut_conflict("CmdOrCtrl+Shift+M", "CmdOrCtrl+Shift+M"),
        Err("CmdOrCtrl+Shift+M is already used by the quick-thought shortcut. Choose a different dictation shortcut.".to_string())
    );
}
