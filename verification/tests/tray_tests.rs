use tray_icon::error::TrayIconError;
use tray_icon::icon::PlatformIcon;
use tray_icon::menu::MenuJsonItem;
use tray_icon::menu_state::ContextMenuJson;
use tray_icon::tray::{
    build_item_from_attrs, menu_update, normalize_tooltip, should_send_hover_tips, TrayIcon,
    TrayIconAttributes, VisibilityChange,
};

fn item(id: &str, item_type: &str) -> MenuJsonItem {
    MenuJsonItem {
        id: id.to_string(),
        text: Some(id.to_string()),
        enabled: None,
        accelerator: None,
        item_type: item_type.to_string(),
        predefined_type: None,
        submenu_items: None,
        checked: Some(true),
        icon: None,
        about_metadata: None,
    }
}

fn attrs(with_icon: bool) -> TrayIconAttributes {
    TrayIconAttributes {
        icon: if with_icon {
            Some(PlatformIcon::from_rgba(vec![1, 2, 3, 255], 1, 1).unwrap())
        } else {
            None
        },
        icon_is_template: false,
        title: None,
        tooltip: Some("tip".to_string()),
    }
}

#[test]
fn tray_without_icon_is_refused() {
    assert!(matches!(
        TrayIcon::new(attrs(false), None),
        Err(TrayIconError::NoIconProvided)
    ));
    assert!(matches!(
        build_item_from_attrs(&attrs(false), None),
        Err(TrayIconError::NoIconProvided)
    ));
}

#[test]
fn new_tray_is_visible_with_defaults() {
    let menu = ContextMenuJson {
        json: "json".to_string(),
        items: vec![item("c", "check")],
    };
    let setup = TrayIcon::new(attrs(true), Some(menu)).unwrap();
    assert!(setup.tray.is_visible);
    assert_eq!(setup.item.quick_operation.title, "Tauri App");
    assert_eq!(setup.item.quick_operation.height, 200);
    assert_eq!(setup.item.quick_operation.module_name, Some("entry".to_string()));
    assert_eq!(setup.item.quick_operation.ability_name, "");
    assert_eq!(setup.item.hover_tips, Some("tip".to_string()));
    assert_eq!(setup.item.icons.size, 1);
    assert_eq!(setup.item.status_bar_group_menu.unwrap().len(), 1);
    assert_eq!(setup.check_state.get("c"), Some(&true));
    assert_eq!(setup.menu_json, Some("json".to_string()));
}

#[test]
fn titled_tray_uses_its_title_and_empty_tooltip_is_dropped() {
    let mut a = attrs(true);
    a.title = Some("Player".to_string());
    a.tooltip = Some(String::new());
    let item = build_item_from_attrs(&a, None).unwrap();
    assert_eq!(item.quick_operation.title, "Player");
    assert!(item.hover_tips.is_none());
    assert!(item.status_bar_group_menu.is_none());
}

#[test]
fn tooltip_normalisation_and_length_limit() {
    assert_eq!(normalize_tooltip(Some(String::new())), None);
    assert_eq!(normalize_tooltip(None), None);
    assert_eq!(normalize_tooltip(Some("hi".to_string())), Some("hi".to_string()));
    assert!(should_send_hover_tips(&Some("a".repeat(128))));
    assert!(!should_send_hover_tips(&Some("a".repeat(129))));
    // 64 two-byte characters are 128 bytes; 65 are too long.
    assert!(should_send_hover_tips(&Some("é".repeat(64))));
    assert!(!should_send_hover_tips(&Some("é".repeat(65))));
    assert!(!should_send_hover_tips(&None));
}

#[test]
fn visibility_changes() {
    let mut tray = TrayIcon::new(attrs(true), None).unwrap().tray;
    assert!(matches!(tray.visibility_change(true, None), Ok(VisibilityChange::Unchanged)));
    assert!(matches!(tray.visibility_change(false, None), Ok(VisibilityChange::Hide)));
    tray.set_visible(false);
    assert!(!tray.is_visible);
    assert!(matches!(tray.visibility_change(false, None), Ok(VisibilityChange::Unchanged)));
    assert!(matches!(tray.visibility_change(true, None), Ok(VisibilityChange::Show(_))));
    tray.set_icon(None);
    assert!(matches!(
        tray.visibility_change(true, None),
        Err(TrayIconError::NoIconProvided)
    ));
}

#[test]
fn title_change_reinstalls_only_visible_tray() {
    let mut tray = TrayIcon::new(attrs(true), None).unwrap().tray;
    match tray.set_title(Some("T".to_string()), None) {
        Some(Some(item)) => assert_eq!(item.quick_operation.title, "T"),
        _ => panic!("visible tray should be reinstalled"),
    }
    tray.set_visible(false);
    assert!(tray.set_title(None, None).is_none());
    assert!(tray.attrs.title.is_none());
}

#[test]
fn removed_menu_sends_no_groups_and_empty_menu_sends_nothing() {
    let removed = menu_update(None);
    assert_eq!(removed.groups.map(|g| g.len()), Some(0));
    assert!(removed.menu_json.is_none());
    let empty = menu_update(Some(ContextMenuJson { json: "[]".to_string(), items: vec![] }));
    assert!(empty.groups.is_none());
    let one = menu_update(Some(ContextMenuJson {
        json: "[x]".to_string(),
        items: vec![item("a", "item")],
    }));
    assert_eq!(one.groups.unwrap().len(), 1);
    assert_eq!(one.menu_json, Some("[x]".to_string()));
}

#[test]
fn rect_is_never_known_and_temp_dir_is_ignored() {
    let mut tray = TrayIcon::new(attrs(true), None).unwrap().tray;
    assert!(tray.rect().is_none());
    tray.set_temp_dir_path(Some("/tmp"));
    tray.set_temp_dir_path::<&str>(None);
    assert!(tray.is_visible);
}

#[test]
fn status_bar_icon_for_missing_icon_is_empty() {
    let tray = TrayIcon::new(attrs(true), None).unwrap().tray;
    let empty = tray.status_bar_icon_for(&None);
    assert!(empty.white.is_none() && empty.black.is_none());
    let icon = PlatformIcon::from_rgba(vec![5, 6, 7, 8], 1, 1).unwrap();
    let icons = tray.status_bar_icon_for(&Some(icon));
    assert_eq!(icons.white, Some(vec![5, 6, 7, 8]));
}
