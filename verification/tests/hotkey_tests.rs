use fluxvoice::hotkey::{
    parse_key, parse_modifier, HotkeyAction, HotkeyBinding, HotkeyCommand, HotkeyManager, KeyCode,
    ModifierSet,
};

fn ctrl() -> ModifierSet {
    ModifierSet { control: true, alt: false, shift: false, meta: false }
}

fn shift() -> ModifierSet {
    ModifierSet { control: false, alt: false, shift: true, meta: false }
}

#[test]
fn parse_modifier_accepts_known_names_in_any_case() {
    assert_eq!(parse_modifier("ctrl"), Some(ctrl()));
    assert_eq!(parse_modifier("Ctrl"), Some(ctrl()));
    assert_eq!(parse_modifier("CONTROL"), Some(ctrl()));
    assert_eq!(
        parse_modifier("alt"),
        Some(ModifierSet { control: false, alt: true, shift: false, meta: false })
    );
    assert_eq!(parse_modifier("Shift"), Some(shift()));
    for name in ["super", "win", "cmd", "meta", "Meta", "WIN"] {
        let m = parse_modifier(name).unwrap();
        assert!(m.meta && !m.control && !m.alt && !m.shift);
    }
    assert_eq!(parse_modifier("hyper"), None);
    assert_eq!(parse_modifier(""), None);
}

#[test]
fn parse_key_accepts_known_names_in_any_case() {
    assert_eq!(parse_key("F1"), Some(KeyCode::F1));
    assert_eq!(parse_key("f12"), Some(KeyCode::F12));
    assert_eq!(parse_key("a"), Some(KeyCode::KeyA));
    assert_eq!(parse_key("Z"), Some(KeyCode::KeyZ));
    assert_eq!(parse_key("space"), Some(KeyCode::Space));
    assert_eq!(parse_key("SPACE"), Some(KeyCode::Space));
    assert_eq!(parse_key("F13"), None);
    assert_eq!(parse_key("enter"), None);
    assert_eq!(parse_key(""), None);
}

#[test]
fn modifier_union_combines_flags() {
    let m = ctrl().union(shift());
    assert!(m.control && m.shift && !m.alt && !m.meta);
}

#[test]
fn registering_second_binding_unregisters_first() {
    let mut mgr = HotkeyManager::new();
    assert_eq!(mgr.binding(), None);

    let b1 = HotkeyBinding { modifiers: ctrl(), key: KeyCode::KeyZ };
    let cmd1 = HotkeyCommand::Register(b1);
    let plan1 = mgr.plan(&cmd1);
    assert_eq!(plan1, vec![HotkeyAction::Register(b1)]);
    mgr.commit(&cmd1, true);
    assert_eq!(mgr.binding(), Some(b1));

    let b2 = HotkeyBinding { modifiers: shift(), key: KeyCode::F5 };
    let cmd2 = HotkeyCommand::Register(b2);
    let plan2 = mgr.plan(&cmd2);
    assert_eq!(plan2, vec![HotkeyAction::Unregister(b1), HotkeyAction::Register(b2)]);
    mgr.commit(&cmd2, true);
    // The query never reports two bound combinations: only the new one
    // remains.
    assert_eq!(mgr.binding(), Some(b2));
}

#[test]
fn failed_registration_leaves_nothing_bound() {
    let mut mgr = HotkeyManager::new();
    let b1 = HotkeyBinding { modifiers: ctrl(), key: KeyCode::KeyZ };
    mgr.commit(&HotkeyCommand::Register(b1), true);

    let b2 = HotkeyBinding { modifiers: ctrl(), key: KeyCode::KeyX };
    mgr.commit(&HotkeyCommand::Register(b2), false);
    assert_eq!(mgr.binding(), None);
}

#[test]
fn unregister_takes_down_the_current_binding() {
    let mut mgr = HotkeyManager::new();
    let b = HotkeyBinding { modifiers: ctrl(), key: KeyCode::Space };
    mgr.commit(&HotkeyCommand::Register(b), true);
    let plan = mgr.plan(&HotkeyCommand::Unregister);
    assert_eq!(plan, vec![HotkeyAction::Unregister(b)]);
    mgr.commit(&HotkeyCommand::Unregister, true);
    assert_eq!(mgr.binding(), None);

    // Unregistering with nothing bound asks for no backend call.
    let plan = mgr.plan(&HotkeyCommand::Unregister);
    assert!(plan.is_empty());
}

#[test]
fn parse_key_accepts_letters_that_uppercase_into_ascii() {
    // Dotless i and long s uppercase to I and S.
    assert_eq!(parse_key("\u{0131}"), Some(KeyCode::KeyI));
    assert_eq!(parse_key("\u{017f}"), Some(KeyCode::KeyS));
    assert_eq!(parse_key("\u{017f}pace"), Some(KeyCode::Space));
}
