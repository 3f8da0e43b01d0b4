use tray_icon::menu::{
    build_item_options, is_separator, menu_json_item_to_status_bar_item, split_items_into_groups,
    MenuJsonItem,
};
use tray_icon::menu_state::{
    menu_to_status_bar_items, menu_to_status_bar_items_with_metadata, patch_items,
    ContextMenuJson,
};
use tray_icon::metadata::{collect_metadata_from_items, StrMap};
use tray_icon::text::strip_mnemonics;

fn make_item(id: &str, text: &str) -> MenuJsonItem {
    MenuJsonItem {
        id: id.to_string(),
        text: Some(text.to_string()),
        enabled: Some(true),
        accelerator: None,
        item_type: "item".to_string(),
        predefined_type: None,
        submenu_items: None,
        checked: None,
        icon: None,
        about_metadata: None,
    }
}

fn make_separator(id: &str) -> MenuJsonItem {
    MenuJsonItem {
        id: id.to_string(),
        text: None,
        enabled: Some(false),
        accelerator: None,
        item_type: "predefined".to_string(),
        predefined_type: Some("separator".to_string()),
        submenu_items: None,
        checked: None,
        icon: None,
        about_metadata: None,
    }
}

fn make_submenu(id: &str, text: &str, children: Vec<MenuJsonItem>) -> MenuJsonItem {
    MenuJsonItem {
        id: id.to_string(),
        text: Some(text.to_string()),
        enabled: Some(true),
        accelerator: None,
        item_type: "submenu".to_string(),
        predefined_type: None,
        submenu_items: Some(children),
        checked: None,
        icon: None,
        about_metadata: None,
    }
}

fn make_check(id: &str, text: &str, checked: Option<bool>) -> MenuJsonItem {
    let mut item = make_item(id, text);
    item.item_type = "check".to_string();
    item.checked = checked;
    item
}

fn make_predefined(id: &str, predefined_type: &str) -> MenuJsonItem {
    let mut item = make_item(id, predefined_type);
    item.item_type = "predefined".to_string();
    item.predefined_type = Some(predefined_type.to_string());
    item
}

#[test]
fn test_regular_item_becomes_top_level_menu_item() {
    let item = make_item("item_1", "Open");
    let result = menu_json_item_to_status_bar_item(item);

    assert_eq!(result.title, "Open");
    assert!(result.sub_menu.is_none());
    assert!(result.menu_action.is_some());
    let action = result.menu_action.unwrap();
    assert_eq!(action.menu_code, Some("item_1".to_string()));
    assert!(action.notify_only.unwrap());
}

#[test]
fn test_submenu_becomes_item_with_sub_menu() {
    let item = make_submenu(
        "submenu_1",
        "File",
        vec![make_item("item_new", "New"), make_item("item_open", "Open")],
    );
    let result = menu_json_item_to_status_bar_item(item);

    assert_eq!(result.title, "File");
    assert!(result.menu_action.is_none());
    assert!(result.sub_menu.is_some());
    let sub_items = result.sub_menu.unwrap();
    assert_eq!(sub_items.len(), 2);
    assert_eq!(sub_items[0].sub_title, "New");
    assert_eq!(sub_items[0].menu_code, Some("item_new".to_string()));
    assert_eq!(sub_items[1].sub_title, "Open");
    assert_eq!(sub_items[1].menu_code, Some("item_open".to_string()));
}

#[test]
fn test_separators_filtered_out() {
    let items = vec![
        make_item("item_1", "Copy"),
        make_separator("sep_1"),
        make_item("item_2", "Paste"),
    ];
    let menu_items: Vec<_> = items
        .into_iter()
        .filter(|item| !is_separator(item))
        .map(|item| menu_json_item_to_status_bar_item(item))
        .collect();

    assert_eq!(menu_items.len(), 2);
    assert_eq!(menu_items[0].title, "Copy");
    assert_eq!(menu_items[1].title, "Paste");
}

#[test]
fn test_split_items_into_groups_at_separator() {
    let items = vec![
        make_item("item_1", "Copy"),
        make_separator("sep_1"),
        make_item("item_2", "Paste"),
    ];
    let groups = split_items_into_groups(items);
    assert_eq!(groups.len(), 2);
    assert_eq!(groups[0].len(), 1);
    assert_eq!(groups[0][0].title, "Copy");
    assert_eq!(groups[1].len(), 1);
    assert_eq!(groups[1][0].title, "Paste");
}

#[test]
fn plain_separator_type_is_separator() {
    let mut item = make_item("s", "");
    item.item_type = "separator".to_string();
    assert!(is_separator(&item));
    assert!(is_separator(&make_separator("p")));
    assert!(!is_separator(&make_predefined("q", "quit")));
    assert!(!is_separator(&make_item("i", "x")));
}

#[test]
fn leading_trailing_and_repeated_separators_make_no_empty_group() {
    let items = vec![
        make_separator("s0"),
        make_item("a", "A"),
        make_separator("s1"),
        make_separator("s2"),
        make_item("b", "B"),
        make_item("c", "C"),
        make_separator("s3"),
    ];
    let groups = split_items_into_groups(items);
    assert_eq!(groups.len(), 2);
    assert_eq!(groups[0].len(), 1);
    assert_eq!(groups[0][0].title, "A");
    assert_eq!(groups[1].len(), 2);
    assert_eq!(groups[1][0].title, "B");
    assert_eq!(groups[1][1].title, "C");
}

#[test]
fn only_separators_make_no_groups() {
    let groups = split_items_into_groups(vec![make_separator("a"), make_separator("b")]);
    assert!(groups.is_empty());
}

#[test]
fn submenu_drops_separator_children_and_has_no_action() {
    let item = make_submenu(
        "sub",
        "&Edit",
        vec![make_item("x", "C&ut"), make_separator("s"), make_item("y", "&&Paste")],
    );
    let result = menu_json_item_to_status_bar_item(item);
    assert_eq!(result.title, "Edit");
    assert!(result.menu_code.is_none());
    assert!(result.options.is_none());
    let subs = result.sub_menu.unwrap();
    assert_eq!(subs.len(), 2);
    assert_eq!(subs[0].sub_title, "Cut");
    assert_eq!(subs[1].sub_title, "Paste");
    assert_eq!(subs[1].menu_action.menu_code, Some("y".to_string()));
    assert_eq!(subs[1].menu_action.notify_only, Some(true));
    assert_eq!(subs[1].menu_action.ability_name, "");
    assert!(subs[1].menu_action.module_name.is_none());
}

#[test]
fn submenu_without_children_lists_nothing() {
    let mut item = make_submenu("sub", "Empty", vec![]);
    item.submenu_items = None;
    let result = menu_json_item_to_status_bar_item(item);
    assert_eq!(result.sub_menu.unwrap().len(), 0);
}

#[test]
fn untitled_item_has_empty_title() {
    let mut item = make_item("i", "x");
    item.text = None;
    let result = menu_json_item_to_status_bar_item(item);
    assert_eq!(result.title, "");
}

#[test]
fn check_item_shows_its_state() {
    let result = menu_json_item_to_status_bar_item(make_check("c", "Dark", Some(true)));
    let options = result.options.unwrap();
    assert_eq!(options.selected, Some(true));
    assert!(options.icon_rgba.is_none());
    assert!(options.icon.is_none());
    assert!(options.selected_icon.is_none());
}

#[test]
fn check_item_without_state_has_no_options() {
    assert!(build_item_options("check", None, None).is_none());
    assert!(build_item_options("item", Some(true), None).is_none());
}

#[test]
fn icon_item_with_undecodable_icon_has_no_options() {
    assert!(build_item_options("icon", None, Some("!!not base64!!")).is_none());
    assert!(build_item_options("icon", None, None).is_none());
}

#[test]
fn strip_mnemonics_removes_every_ampersand() {
    assert_eq!(strip_mnemonics("&File"), "File");
    assert_eq!(strip_mnemonics("Save && Quit"), "Save  Quit");
    assert_eq!(strip_mnemonics("plain"), "plain");
    assert_eq!(strip_mnemonics(""), "");
    assert_eq!(strip_mnemonics("&é&ü"), "éü");
    let once = strip_mnemonics("a&b&&c");
    assert_eq!(strip_mnemonics(&once), once);
}

#[test]
fn metadata_records_predefined_and_check_entries_in_the_tree() {
    let items = vec![
        make_predefined("quit_id", "quit"),
        make_separator("sep"),
        make_check("c1", "One", Some(true)),
        make_submenu(
            "sub",
            "More",
            vec![make_check("c2", "Two", None), make_predefined("min", "minimize")],
        ),
    ];
    let mut pm: StrMap<String> = StrMap::new();
    let mut cs: StrMap<bool> = StrMap::new();
    collect_metadata_from_items(&items, &mut pm, &mut cs);
    assert_eq!(pm.get("quit_id"), Some(&"quit".to_string()));
    assert_eq!(pm.get("min"), Some(&"minimize".to_string()));
    assert!(!pm.contains_key("sep"));
    assert_eq!(cs.get("c1"), Some(&true));
    assert_eq!(cs.get("c2"), Some(&false));
    assert!(!cs.contains_key("sub"));
}

#[test]
fn later_entry_with_same_id_overrides() {
    let items = vec![make_check("c", "A", Some(true)), make_check("c", "B", Some(false))];
    let mut pm: StrMap<String> = StrMap::new();
    let mut cs: StrMap<bool> = StrMap::new();
    collect_metadata_from_items(&items, &mut pm, &mut cs);
    assert_eq!(cs.get("c"), Some(&false));
}

#[test]
fn menu_without_entries_has_no_groups() {
    assert!(menu_to_status_bar_items(None).is_none());
    assert!(menu_to_status_bar_items(Some(vec![])).is_none());
    assert!(menu_to_status_bar_items(Some(vec![make_separator("s")])).is_none());
    let groups = menu_to_status_bar_items(Some(vec![make_item("a", "A")])).unwrap();
    assert_eq!(groups.len(), 1);
}

#[test]
fn menu_with_metadata_keeps_json_text() {
    let menu = ContextMenuJson {
        json: "[...]".to_string(),
        items: vec![make_check("c", "C", Some(true)), make_predefined("q", "quit")],
    };
    let (groups, pm, cs, json) = menu_to_status_bar_items_with_metadata(Some(menu));
    assert_eq!(groups.unwrap()[0].len(), 2);
    assert_eq!(pm.get("q"), Some(&"quit".to_string()));
    assert_eq!(cs.get("c"), Some(&true));
    assert_eq!(json, Some("[...]".to_string()));

    let empty = ContextMenuJson { json: "[]".to_string(), items: vec![] };
    let (groups, pm, cs, json) = menu_to_status_bar_items_with_metadata(Some(empty));
    assert!(groups.is_none());
    assert!(!pm.contains_key("q"));
    assert!(!cs.contains_key("c"));
    assert!(json.is_none());
}

#[test]
fn patch_items_applies_recorded_check_states_in_the_tree() {
    let items = vec![
        make_check("c1", "One", Some(true)),
        make_item("plain", "Plain"),
        make_submenu("sub", "Sub", vec![make_check("c2", "Two", None)]),
    ];
    let mut cs: StrMap<bool> = StrMap::new();
    cs.insert("c1".to_string(), false);
    cs.insert("c2".to_string(), true);
    let patched = patch_items(items, &cs);
    assert_eq!(patched.len(), 3);
    assert_eq!(patched[0].checked, Some(false));
    assert_eq!(patched[1].checked, None);
    assert_eq!(patched[1].id, "plain");
    let children = patched[2].submenu_items.as_ref().unwrap();
    assert_eq!(children[0].checked, Some(true));
    assert_eq!(children[0].text, Some("Two".to_string()));
}
