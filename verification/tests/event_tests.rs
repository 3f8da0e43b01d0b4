use tray_icon::event::{
    get_current_tray_id, handle_menu_click, menu_action_for, predefined_action_kind,
    register_tray_id, toggle_check_item, translate_menu_code, MenuAction, MenuClick,
    PredefinedAction, TrayIconId, TrayIdRegistry,
};
use tray_icon::metadata::MenuMetadata;

fn metadata() -> MenuMetadata {
    let mut m = MenuMetadata::default();
    m.predefined_map.insert("q".to_string(), "quit".to_string());
    m.predefined_map.insert("m".to_string(), "minimize".to_string());
    m.predefined_map.insert("x".to_string(), "services".to_string());
    m.check_state.insert("dark".to_string(), false);
    m.menu_json = Some("[json]".to_string());
    m
}

#[test]
fn unregistered_tray_is_main() {
    let registry = TrayIdRegistry::new();
    assert_eq!(get_current_tray_id(&registry).0, "main");
}

#[test]
fn last_registered_tray_is_current() {
    let mut registry = TrayIdRegistry::new();
    register_tray_id(&mut registry, TrayIconId::new("first"));
    assert_eq!(get_current_tray_id(&registry).0, "first");
    register_tray_id(&mut registry, TrayIconId::new("second"));
    assert_eq!(get_current_tray_id(&registry).0, "second");
}

#[test]
fn codes_pass_through_without_numbering() {
    let m = metadata();
    assert_eq!(translate_menu_code(&m, "3"), "3");
    assert_eq!(translate_menu_code(&m, "dark"), "dark");
}

#[test]
fn numbered_codes_translate_to_ids() {
    let mut m = metadata();
    m.flat_ids = vec!["open".to_string(), "dark".to_string()];
    assert_eq!(translate_menu_code(&m, "0"), "open");
    assert_eq!(translate_menu_code(&m, "1"), "dark");
    assert_eq!(translate_menu_code(&m, "+1"), "dark");
    assert_eq!(translate_menu_code(&m, "2"), "2");
    assert_eq!(translate_menu_code(&m, "-1"), "-1");
    assert_eq!(translate_menu_code(&m, "x1"), "x1");
    assert_eq!(translate_menu_code(&m, ""), "");
    assert_eq!(translate_menu_code(&m, "99999999999999999999999"), "99999999999999999999999");
}

#[test]
fn menu_actions_classify_entries() {
    let m = metadata();
    assert_eq!(menu_action_for(&m, "q"), MenuAction::Predefined("quit".to_string()));
    assert_eq!(menu_action_for(&m, "dark"), MenuAction::Check("dark".to_string()));
    assert_eq!(menu_action_for(&m, "other"), MenuAction::Regular);
}

#[test]
fn predefined_actions_are_classified() {
    assert_eq!(predefined_action_kind("quit"), PredefinedAction::Quit);
    for t in [
        "minimize", "hide", "maximize", "close", "fullscreen", "about", "copy", "cut", "paste",
        "selectAll", "undo", "redo", "recover",
    ] {
        assert_eq!(predefined_action_kind(t), PredefinedAction::System);
    }
    assert_eq!(predefined_action_kind("services"), PredefinedAction::Unsupported);
    assert_eq!(predefined_action_kind("Quit"), PredefinedAction::Unsupported);
}

#[test]
fn toggle_twice_restores_state() {
    let mut m = metadata();
    let json = toggle_check_item(&mut m, "dark");
    assert_eq!(json, Some("[json]".to_string()));
    assert_eq!(m.check_state.get("dark"), Some(&true));
    toggle_check_item(&mut m, "dark");
    assert_eq!(m.check_state.get("dark"), Some(&false));
}

#[test]
fn toggling_unknown_entry_changes_nothing() {
    let mut m = metadata();
    toggle_check_item(&mut m, "nope");
    assert!(!m.check_state.contains_key("nope"));
    assert_eq!(m.check_state.get("dark"), Some(&false));
}

#[test]
fn menu_clicks_resolve() {
    let mut m = metadata();
    match handle_menu_click(&mut m, "q") {
        MenuClick::Predefined { predefined_type, kind } => {
            assert_eq!(predefined_type, "quit");
            assert_eq!(kind, PredefinedAction::Quit);
        }
        other => panic!("unexpected {:?}", other),
    }
    match handle_menu_click(&mut m, "x") {
        MenuClick::Predefined { kind, .. } => assert_eq!(kind, PredefinedAction::Unsupported),
        other => panic!("unexpected {:?}", other),
    }
    match handle_menu_click(&mut m, "dark") {
        MenuClick::Toggled { code, menu_json } => {
            assert_eq!(code, "dark");
            assert_eq!(menu_json, Some("[json]".to_string()));
        }
        other => panic!("unexpected {:?}", other),
    }
    assert_eq!(m.check_state.get("dark"), Some(&true));
    match handle_menu_click(&mut m, "open") {
        MenuClick::Regular { code } => assert_eq!(code, "open"),
        other => panic!("unexpected {:?}", other),
    }
}

#[test]
fn numbered_click_resolves_through_translation() {
    let mut m = metadata();
    m.flat_ids = vec!["q".to_string(), "dark".to_string()];
    match handle_menu_click(&mut m, "1") {
        MenuClick::Toggled { code, .. } => assert_eq!(code, "dark"),
        other => panic!("unexpected {:?}", other),
    }
}
