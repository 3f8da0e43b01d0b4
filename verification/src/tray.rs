//! The tray icon's state and the status-bar requests each change of it
//! calls for. The status bar itself is driven by the caller: these
//! functions decide, the caller performs and then records the outcome.

use vstd::prelude::*;
use vstd::utf8::encode_utf8;
use crate::error::TrayIconError;
use crate::icon::{
    PlatformIcon, StatusBarIcon, icon_conversion_defined, icon_to_status_bar_icon, square_edge,
    status_bar_renderings,
};
use crate::menu::{MenuJsonItem, StatusBarMenuItem};
use crate::menu_state::{
    ContextMenuJson, menu_groups_spec, menu_to_status_bar_items,
    menu_to_status_bar_items_with_metadata,
};
use crate::metadata::{StrMap, collect_items};

verus! {

/// The longest hover tip, in bytes, that the status bar is sent.
pub const MAX_HOVER_TIPS_LEN: usize = 128;

/// The height of the tray's quick-operation panel.
pub const QUICK_OPERATION_HEIGHT: u32 = 200;

/// A position in physical pixels.
#[derive(Debug, Clone, Copy, PartialEq, Eq, Structural)]
pub struct PhysicalPosition {
    pub x: i32,
    pub y: i32,
}

/// A size in physical pixels.
#[derive(Debug, Clone, Copy, PartialEq, Eq, Structural)]
pub struct PhysicalSize {
    pub width: u32,
    pub height: u32,
}

/// A rectangle on screen.
#[derive(Debug, Clone, Copy, PartialEq, Eq, Structural)]
pub struct Rect {
    pub position: PhysicalPosition,
    pub size: PhysicalSize,
}

/// What the tray shows besides its menu.
pub struct TrayIconAttributes {
    pub icon: Option<PlatformIcon>,
    pub icon_is_template: bool,
    pub title: Option<String>,
    pub tooltip: Option<String>,
}

/// The quick-operation panel the status bar opens for the tray.
pub struct QuickOperation {
    pub ability_name: String,
    pub title: String,
    pub height: u32,
    pub module_name: Option<String>,
    pub loading_status: Option<String>,
}

/// Everything the status bar is given to show the tray.
pub struct StatusBarItem {
    pub icons: StatusBarIcon,
    pub quick_operation: QuickOperation,
    pub status_bar_group_menu: Option<Vec<Vec<StatusBarMenuItem>>>,
    pub hover_tips: Option<String>,
}

/// The icon can be converted, where there is one.
pub open spec fn attrs_convertible(attrs: TrayIconAttributes) -> bool {
    attrs.icon matches Some(icon) ==> icon_conversion_defined(icon, attrs.icon_is_template)
}

/// The hover tip: the tooltip unless it is empty.
pub open spec fn tips_of(tooltip: Option<String>) -> Option<Seq<char>> {
    match tooltip {
        Some(t) if t@.len() > 0 => Some(t@),
        _ => None,
    }
}

/// The characters of an optional string.
pub open spec fn chars_of(o: Option<String>) -> Option<Seq<char>> {
    match o {
        Some(s) => Some(s@),
        None => None,
    }
}

/// `icons` is the status-bar icon made from `icon`.
pub open spec fn icons_for(icons: StatusBarIcon, icon: PlatformIcon, is_template: bool) -> bool {
    &&& icons.size == square_edge(icon)
    &&& icons.white is Some
    &&& icons.black is Some
    &&& icons.white->0@ == status_bar_renderings(icon, is_template).0
    &&& icons.black->0@ == status_bar_renderings(icon, is_template).1
}

/// `q` is the quick-operation panel for a tray titled `title` ("Tauri App"
/// where untitled).
pub open spec fn quick_operation_for(q: QuickOperation, title: Option<String>) -> bool {
    &&& q.ability_name@ == Seq::<char>::empty()
    &&& q.title@ == (match title {
        Some(t) => t@,
        None => "Tauri App"@,
    })
    &&& q.height == QUICK_OPERATION_HEIGHT
    &&& chars_of(q.module_name) == Some("entry"@)
    &&& q.loading_status is None
}

/// `item` is what the status bar is given for a tray with these attributes
/// and the icon conversion `icons`.
pub open spec fn item_for(item: StatusBarItem, attrs: TrayIconAttributes, icon: PlatformIcon) -> bool {
    &&& icons_for(item.icons, icon, attrs.icon_is_template)
    &&& quick_operation_for(item.quick_operation, attrs.title)
    &&& chars_of(item.hover_tips) == tips_of(attrs.tooltip)
}

fn quick_operation(title: &Option<String>) -> (q: QuickOperation)
    ensures
        quick_operation_for(q, *title),
{
    let title = match title {
        Some(t) => t.clone(),
        None => "Tauri App".to_string(),
    };
    QuickOperation {
        ability_name: String::new(),
        title,
        height: QUICK_OPERATION_HEIGHT,
        module_name: Some("entry".to_string()),
        loading_status: None,
    }
}

/// The hover tip for a tooltip: none where the tooltip is absent or empty.
pub fn normalize_tooltip(tooltip: Option<String>) -> (r: Option<String>)
    ensures
        chars_of(r) == tips_of(tooltip),
{
    match tooltip {
        Some(t) => {
            if t.as_str().is_empty() {
                None
            } else {
                Some(t)
            }
        },
        None => None,
    }
}

fn hover_tips(tooltip: &Option<String>) -> (r: Option<String>)
    ensures
        chars_of(r) == tips_of(*tooltip),
{
    match tooltip {
        Some(t) => normalize_tooltip(Some(t.clone())),
        None => None,
    }
}

/// Whether the hover tip is sent to the status bar: it is present and at
/// most `MAX_HOVER_TIPS_LEN` bytes long in UTF-8.
pub fn should_send_hover_tips(tips: &Option<String>) -> (r: bool)
    ensures
        r == (tips matches Some(t) && (encode_utf8(t@).len() as usize) <= MAX_HOVER_TIPS_LEN),
{
    match tips {
        Some(t) => t.as_str().len() <= MAX_HOVER_TIPS_LEN,
        None => false,
    }
}

/// What the status bar is given to show a tray with these attributes and
/// menu entries; a tray without an icon cannot be shown.
pub fn build_item_from_attrs(attrs: &TrayIconAttributes, menu: Option<Vec<MenuJsonItem>>) -> (r: Result<
    StatusBarItem,
    TrayIconError,
>)
    requires
        attrs_convertible(*attrs),
    ensures
        attrs.icon is None <==> r matches Err(TrayIconError::NoIconProvided),
        r is Err ==> attrs.icon is None,
        r matches Ok(item) ==> item_for(item, *attrs, attrs.icon->0) && match menu {
            None => item.status_bar_group_menu is None,
            Some(items) => menu_groups_spec(item.status_bar_group_menu, items@),
        },
{
    let icon = match &attrs.icon {
        Some(icon) => icon,
        None => {
            return Err(TrayIconError::NoIconProvided);
        },
    };
    let icons = match icon_to_status_bar_icon(icon, attrs.icon_is_template) {
        Ok(icons) => icons,
        Err(e) => {
            return Err(e);
        },
    };
    let menus = menu_to_status_bar_items(menu);
    Ok(
        StatusBarItem {
            icons,
            quick_operation: quick_operation(&attrs.title),
            status_bar_group_menu: menus,
            hover_tips: hover_tips(&attrs.tooltip),
        },
    )
}

/// A tray icon: its attributes and whether the status bar shows it.
pub struct TrayIcon {
    pub attrs: TrayIconAttributes,
    pub is_visible: bool,
}

/// A new tray: its state, what the status bar is given to show it, and the
/// menu metadata that click handling consults from now on.
pub struct TrayIconSetup {
    pub tray: TrayIcon,
    pub item: StatusBarItem,
    pub predefined_map: StrMap<String>,
    pub check_state: StrMap<bool>,
    pub menu_json: Option<String>,
}

/// What a change of visibility asks of the status bar.
pub enum VisibilityChange {
    /// Add the tray with this item, then record it as visible.
    Show(StatusBarItem),
    /// Remove the tray, then record it as hidden.
    Hide,
    /// Nothing.
    Unchanged,
}

/// What replacing the menu asks of the status bar, and the menu metadata to
/// record.
pub struct MenuUpdate {
    /// The groups to send: the new menu's, none for a removed menu, or
    /// `None` where nothing is sent.
    pub groups: Option<Vec<Vec<StatusBarMenuItem>>>,
    pub predefined_map: StrMap<String>,
    pub check_state: StrMap<bool>,
    pub menu_json: Option<String>,
}

/// The menu's metadata as `menu_to_status_bar_items_with_metadata` states
/// it: empty without a menu or without entries.
pub open spec fn menu_metadata_for(
    menu: Option<ContextMenuJson>,
    pm: Map<Seq<char>, String>,
    cs: Map<Seq<char>, bool>,
    json: Option<String>,
) -> bool {
    match menu {
        Some(m) if m.items@.len() > 0 => {
            &&& (pm, cs) == collect_items(
                m.items@,
                Map::<Seq<char>, String>::empty(),
                Map::<Seq<char>, bool>::empty(),
            )
            &&& json == Some(m.json)
        },
        _ => {
            &&& pm == Map::<Seq<char>, String>::empty()
            &&& cs == Map::<Seq<char>, bool>::empty()
            &&& json is None
        },
    }
}

/// Replaces the tray's menu: the new menu's groups and metadata. A removed
/// menu is sent as no groups; a menu without groups sends nothing.
pub fn menu_update(menu: Option<ContextMenuJson>) -> (r: MenuUpdate)
    ensures
        menu_metadata_for(menu, r.predefined_map@, r.check_state@, r.menu_json),
        match menu {
            None => r.groups matches Some(g) && g@.len() == 0,
            Some(m) => if m.items@.len() > 0 {
                menu_groups_spec(r.groups, m.items@)
            } else {
                r.groups is None
            },
        },
{
    let removed = menu.is_none();
    let (menus, predefined_map, check_state, menu_json) = menu_to_status_bar_items_with_metadata(
        menu,
    );
    let groups = if menus.is_some() {
        menus
    } else if removed {
        Some(Vec::new())
    } else {
        None
    };
    MenuUpdate { groups, predefined_map, check_state, menu_json }
}

impl TrayIcon {
    /// Creates a tray from its attributes and menu; it starts out visible.
    /// Fails without an icon.
    pub fn new(attrs: TrayIconAttributes, menu: Option<ContextMenuJson>) -> (r: Result<
        TrayIconSetup,
        TrayIconError,
    >)
        requires
            attrs_convertible(attrs),
        ensures
            attrs.icon is None <==> r is Err,
            r matches Err(e) ==> e == TrayIconError::NoIconProvided,
            r matches Ok(setup) ==> {
                &&& setup.tray.attrs == attrs
                &&& setup.tray.is_visible
                &&& item_for(setup.item, attrs, attrs.icon->0)
                &&& menu_metadata_for(
                    menu,
                    setup.predefined_map@,
                    setup.check_state@,
                    setup.menu_json,
                )
                &&& match menu {
                    Some(m) if m.items@.len() > 0 => menu_groups_spec(
                        setup.item.status_bar_group_menu,
                        m.items@,
                    ),
                    _ => setup.item.status_bar_group_menu is None,
                }
            },
    {
        let icons = match &attrs.icon {
            Some(icon) => match icon_to_status_bar_icon(icon, attrs.icon_is_template) {
                Ok(icons) => icons,
                Err(e) => {
                    return Err(e);
                },
            },
            None => {
                return Err(TrayIconError::NoIconProvided);
            },
        };
        let quick_operation = quick_operation(&attrs.title);
        let (menus, predefined_map, check_state, menu_json) = menu_to_status_bar_items_with_metadata(
            menu,
        );
        let item = StatusBarItem {
            icons,
            quick_operation,
            status_bar_group_menu: menus,
            hover_tips: hover_tips(&attrs.tooltip),
        };
        Ok(
            TrayIconSetup {
                tray: TrayIcon { attrs, is_visible: true },
                item,
                predefined_map,
                check_state,
                menu_json,
            },
        )
    }

    /// The status-bar icon for a new icon: its conversion, or the empty
    /// icon that clears the status bar's.
    pub fn status_bar_icon_for(&self, icon: &Option<PlatformIcon>) -> (r: StatusBarIcon)
        requires
            icon matches Some(i) ==> icon_conversion_defined(*i, self.attrs.icon_is_template),
        ensures
            match icon {
                Some(i) => icons_for(r, *i, self.attrs.icon_is_template),
                None => r.white is None && r.black is None && r.size == 0,
            },
    {
        match icon {
            Some(i) => match icon_to_status_bar_icon(i, self.attrs.icon_is_template) {
                Ok(icons) => icons,
                Err(_) => StatusBarIcon::default(),
            },
            None => StatusBarIcon::default(),
        }
    }

    /// Records the tray's icon.
    pub fn set_icon(&mut self, icon: Option<PlatformIcon>)
        ensures
            final(self).attrs.icon == icon,
            final(self).attrs.icon_is_template == old(self).attrs.icon_is_template,
            final(self).attrs.title == old(self).attrs.title,
            final(self).attrs.tooltip == old(self).attrs.tooltip,
            final(self).is_visible == old(self).is_visible,
    {
        self.attrs.icon = icon;
    }

    /// Records the tray's tooltip (already normalised by
    /// `normalize_tooltip`).
    pub fn set_tooltip(&mut self, tooltip: Option<String>)
        ensures
            final(self).attrs.tooltip == tooltip,
            final(self).attrs.icon == old(self).attrs.icon,
            final(self).attrs.icon_is_template == old(self).attrs.icon_is_template,
            final(self).attrs.title == old(self).attrs.title,
            final(self).is_visible == old(self).is_visible,
    {
        self.attrs.tooltip = tooltip;
    }

    /// Records the tray's title. A visible tray is then shown anew: the
    /// result is `Some` with the item to add back (none where the tray has
    /// no icon); a hidden tray needs nothing (`None`).
    pub fn set_title(&mut self, title: Option<String>, menu: Option<Vec<MenuJsonItem>>) -> (r: Option<
        Option<StatusBarItem>,
    >)
        requires
            attrs_convertible(old(self).attrs),
        ensures
            final(self).attrs.title == title,
            final(self).attrs.icon == old(self).attrs.icon,
            final(self).attrs.icon_is_template == old(self).attrs.icon_is_template,
            final(self).attrs.tooltip == old(self).attrs.tooltip,
            final(self).is_visible == old(self).is_visible,
            !old(self).is_visible <==> r is None,
            r matches Some(item) ==> (item is None <==> old(self).attrs.icon is None),
            r matches Some(Some(item)) ==> item_for(item, final(self).attrs, final(self).attrs.icon->0)
                && match menu {
                None => item.status_bar_group_menu is None,
                Some(items) => menu_groups_spec(item.status_bar_group_menu, items@),
            },
    {
        self.attrs.title = title;
        if self.is_visible {
            match build_item_from_attrs(&self.attrs, menu) {
                Ok(item) => Some(Some(item)),
                Err(_) => Some(None),
            }
        } else {
            None
        }
    }

    /// What making the tray visible or hidden asks of the status bar:
    /// showing a hidden tray needs its item (and fails without an icon),
    /// hiding a visible tray removes it, anything else needs nothing.
    pub fn visibility_change(&self, visible: bool, menu: Option<Vec<MenuJsonItem>>) -> (r: Result<
        VisibilityChange,
        TrayIconError,
    >)
        requires
            attrs_convertible(self.attrs),
        ensures
            r is Err <==> (visible && !self.is_visible && self.attrs.icon is None),
            r matches Err(e) ==> e == TrayIconError::NoIconProvided,
            r matches Ok(VisibilityChange::Show(item)) ==> visible && !self.is_visible
                && item_for(item, self.attrs, self.attrs.icon->0),
            r matches Ok(VisibilityChange::Hide) ==> !visible && self.is_visible,
            r matches Ok(VisibilityChange::Unchanged) ==> visible == self.is_visible,
            visible && !self.is_visible && self.attrs.icon is Some ==> r matches Ok(VisibilityChange::Show(_)),
            !visible && self.is_visible ==> r matches Ok(VisibilityChange::Hide),
    {
        if visible && !self.is_visible {
            match build_item_from_attrs(&self.attrs, menu) {
                Ok(item) => Ok(VisibilityChange::Show(item)),
                Err(e) => Err(e),
            }
        } else if !visible && self.is_visible {
            Ok(VisibilityChange::Hide)
        } else {
            Ok(VisibilityChange::Unchanged)
        }
    }

    /// Records whether the status bar shows the tray.
    pub fn set_visible(&mut self, visible: bool)
        ensures
            final(self).is_visible == visible,
            final(self).attrs == old(self).attrs,
    {
        self.is_visible = visible;
    }

    /// Where the tray is shown: never known, the status bar does not
    /// report the tray's position or size.
    pub fn rect(&self) -> (r: Option<Rect>)
        ensures
            r is None,
    {
        None
    }

    /// A directory for temporary icon files; the status bar takes icon
    /// data directly, so nothing is kept.
    pub fn set_temp_dir_path<P>(&mut self, _path: Option<P>)
        ensures
            *final(self) == *old(self),
    {
    }
}

} // verus!
