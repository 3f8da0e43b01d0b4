//! The tray menu: items as the menu library describes them in JSON, and
//! their conversion into status-bar menu groups.

use vstd::prelude::*;
use crate::decode::{decode_icon_from_base64, decoded_icon};
use crate::text::{lemma_strip_removes_only_ampersands, str_eq, strip_mnemonics, without_mnemonics};

verus! {

/// The "about" details a predefined about item may carry.
#[derive(Debug, Clone)]
pub struct AboutMetadataJson {
    pub name: Option<String>,
    pub version: Option<String>,
    pub short_version: Option<String>,
    pub authors: Option<Vec<String>>,
    pub comments: Option<String>,
    pub copyright: Option<String>,
    pub license: Option<String>,
    pub website: Option<String>,
}

/// One menu entry as the menu's JSON form describes it.
#[derive(Debug)]
pub struct MenuJsonItem {
    pub id: String,
    pub text: Option<String>,
    pub item_type: String,
    pub enabled: Option<bool>,
    pub accelerator: Option<String>,
    pub predefined_type: Option<String>,
    pub submenu_items: Option<Vec<MenuJsonItem>>,
    pub checked: Option<bool>,
    pub icon: Option<String>,
    pub about_metadata: Option<AboutMetadataJson>,
}

/// What the status bar does when an entry is chosen.
#[derive(Debug, Clone)]
pub struct StatusBarMenuAction {
    pub ability_name: String,
    pub module_name: Option<String>,
    pub menu_code: Option<String>,
    pub notify_only: Option<bool>,
}

/// Extra presentation of an entry: check mark and icon.
#[derive(Debug, Clone)]
pub struct StatusBarMenuItemOptions {
    pub icon: Option<String>,
    pub selected: Option<bool>,
    pub selected_icon: Option<String>,
    pub icon_rgba: Option<Vec<u8>>,
    pub icon_width: Option<u32>,
    pub icon_height: Option<u32>,
}

/// An entry of a status-bar submenu.
#[derive(Debug, Clone)]
pub struct StatusBarSubMenuItem {
    pub sub_title: String,
    pub menu_code: Option<String>,
    pub menu_action: StatusBarMenuAction,
    pub options: Option<StatusBarMenuItemOptions>,
}

/// A top-level status-bar menu entry: either an action or a submenu.
#[derive(Debug, Clone)]
pub struct StatusBarMenuItem {
    pub title: String,
    pub menu_code: Option<String>,
    pub sub_menu: Option<Vec<StatusBarSubMenuItem>>,
    pub menu_action: Option<StatusBarMenuAction>,
    pub options: Option<StatusBarMenuItemOptions>,
}

// ---------------------------------------------------------------------------
// Specifications of the conversion
// ---------------------------------------------------------------------------

/// The characters of an optional string.
pub open spec fn opt_view(o: Option<String>) -> Option<Seq<char>> {
    match o {
        Some(s) => Some(s@),
        None => None,
    }
}

/// The characters of an optional text, empty where there is none.
pub open spec fn text_or_empty(t: Option<String>) -> Seq<char> {
    match t {
        Some(s) => s@,
        None => Seq::empty(),
    }
}

/// The entry separates groups: a separator, or the predefined separator.
pub open spec fn separates(item: MenuJsonItem) -> bool {
    ||| item.item_type@ == "separator"@
    ||| (item.item_type@ == "predefined"@ && opt_view(item.predefined_type) == Some("separator"@))
}

/// The entries that are not separators, in order.
pub open spec fn non_separators(items: Seq<MenuJsonItem>) -> Seq<MenuJsonItem>
    decreases items.len(),
{
    if items.len() == 0 {
        Seq::empty()
    } else if separates(items.last()) {
        non_separators(items.drop_last())
    } else {
        non_separators(items.drop_last()).push(items.last())
    }
}

/// The children of a submenu entry.
pub open spec fn children_of(item: MenuJsonItem) -> Seq<MenuJsonItem> {
    match item.submenu_items {
        Some(v) => v@,
        None => Seq::empty(),
    }
}

/// The action of an entry: notify the application with the entry's id.
pub open spec fn notifies(a: StatusBarMenuAction, id: Seq<char>) -> bool {
    &&& a.ability_name@ == Seq::<char>::empty()
    &&& a.module_name is None
    &&& opt_view(a.menu_code) == Some(id)
    &&& a.notify_only == Some(true)
}

/// The check mark shown: the entry's state, for check entries only.
pub open spec fn selected_for(item_type: Seq<char>, checked: Option<bool>) -> Option<bool> {
    if item_type == "check"@ {
        checked
    } else {
        None
    }
}

/// The icon shown: the decoded icon, for icon entries only.
pub open spec fn picture_for(item_type: Seq<char>, icon: Option<Seq<char>>) -> Option<(Seq<u8>, u32, u32)> {
    if item_type == "icon"@ {
        decoded_icon(icon)
    } else {
        None
    }
}

/// `o` holds the options of an entry of this type, check state and icon:
/// present exactly when there is a check mark or a picture to show.
pub open spec fn options_for(
    o: Option<StatusBarMenuItemOptions>,
    item_type: Seq<char>,
    checked: Option<bool>,
    icon: Option<Seq<char>>,
) -> bool {
    let selected = selected_for(item_type, checked);
    let picture = picture_for(item_type, icon);
    if selected is Some || picture is Some {
        &&& o is Some
        &&& o->0.icon is None
        &&& o->0.selected == selected
        &&& o->0.selected_icon is None
        &&& match picture {
            Some((rgba, w, h)) => {
                &&& o->0.icon_rgba is Some
                &&& o->0.icon_rgba->0@ == rgba
                &&& o->0.icon_width == Some(w)
                &&& o->0.icon_height == Some(h)
            },
            None => {
                &&& o->0.icon_rgba is None
                &&& o->0.icon_width is None
                &&& o->0.icon_height is None
            },
        }
    } else {
        o is None
    }
}

/// `s` is the submenu entry made from `child`.
pub open spec fn sub_item_for(s: StatusBarSubMenuItem, child: MenuJsonItem) -> bool {
    &&& s.sub_title@ == without_mnemonics(text_or_empty(child.text))
    &&& opt_view(s.menu_code) == Some(child.id@)
    &&& notifies(s.menu_action, child.id@)
    &&& options_for(s.options, child.item_type@, child.checked, opt_view(child.icon))
}

/// `subs` are the submenu entries made from `children`, one each, in order.
pub open spec fn sub_items_for(subs: Seq<StatusBarSubMenuItem>, children: Seq<MenuJsonItem>) -> bool {
    &&& subs.len() == children.len()
    &&& forall|i: int| 0 <= i < subs.len() ==> sub_item_for(#[trigger] subs[i], children[i])
}

/// `m` is the status-bar entry made from `item`: a submenu entry lists the
/// children that are not separators and has no action of its own; any
/// other entry notifies with its id.
pub open spec fn menu_item_for(m: StatusBarMenuItem, item: MenuJsonItem) -> bool {
    &&& m.title@ == without_mnemonics(text_or_empty(item.text))
    &&& if item.item_type@ == "submenu"@ {
        &&& m.menu_code is None
        &&& m.menu_action is None
        &&& m.options is None
        &&& m.sub_menu is Some
        &&& sub_items_for(m.sub_menu->0@, non_separators(children_of(item)))
    } else {
        &&& opt_view(m.menu_code) == Some(item.id@)
        &&& m.sub_menu is None
        &&& m.menu_action is Some
        &&& notifies(m.menu_action->0, item.id@)
        &&& options_for(m.options, item.item_type@, item.checked, opt_view(item.icon))
    }
}

// ---------------------------------------------------------------------------
// Conversion
// ---------------------------------------------------------------------------

/// Whether the entry separates groups: type "separator", or a predefined
/// entry of predefined type "separator".
pub fn is_separator(item: &MenuJsonItem) -> (r: bool)
    ensures
        r == separates(*item),
{
    if str_eq(item.item_type.as_str(), "separator") {
        return true;
    }
    if !str_eq(item.item_type.as_str(), "predefined") {
        return false;
    }
    match &item.predefined_type {
        Some(pt) => str_eq(pt.as_str(), "separator"),
        None => false,
    }
}

fn optional_str(o: &Option<String>) -> (r: Option<&str>)
    ensures
        match r {
            Some(s) => opt_view(*o) == Some(s@),
            None => o is None,
        },
{
    match o {
        Some(s) => Some(s.as_str()),
        None => None,
    }
}

fn label_of(text: &Option<String>) -> (r: String)
    ensures
        r@ == without_mnemonics(text_or_empty(*text)),
{
    match text {
        Some(t) => {
            let r = strip_mnemonics(t.as_str());
            assert(t@ == text_or_empty(*text));
            r
        },
        None => {
            let r = strip_mnemonics("");
            proof {
                reveal_strlit("");
                assert(""@ =~= text_or_empty(*text));
            }
            r
        },
    }
}

fn notify_action(id: &String) -> (a: StatusBarMenuAction)
    ensures
        notifies(a, id@),
{
    StatusBarMenuAction {
        ability_name: String::new(),
        module_name: None,
        menu_code: Some(id.clone()),
        notify_only: Some(true),
    }
}

/// The options of an entry: check entries show their check state, icon
/// entries their decoded icon; `None` where neither applies.
pub fn build_item_options(item_type: &str, checked: Option<bool>, icon_b64: Option<&str>) -> (r: Option<
    StatusBarMenuItemOptions,
>)
    ensures
        options_for(
            r,
            item_type@,
            checked,
            match icon_b64 {
                Some(t) => Some(t@),
                None => None,
            },
        ),
{
    let selected = if str_eq(item_type, "check") {
        checked
    } else {
        None
    };
    let (icon_rgba, icon_width, icon_height) = if str_eq(item_type, "icon") {
        decode_icon_from_base64(icon_b64)
    } else {
        (None, None, None)
    };
    if selected.is_some() || icon_rgba.is_some() {
        Some(
            StatusBarMenuItemOptions {
                icon: None,
                selected,
                selected_icon: None,
                icon_rgba,
                icon_width,
                icon_height,
            },
        )
    } else {
        None
    }
}

fn sub_menu_item(child: &MenuJsonItem) -> (s: StatusBarSubMenuItem)
    ensures
        sub_item_for(s, *child),
{
    StatusBarSubMenuItem {
        sub_title: label_of(&child.text),
        menu_code: Some(child.id.clone()),
        menu_action: notify_action(&child.id),
        options: build_item_options(child.item_type.as_str(), child.checked, optional_str(&child.icon)),
    }
}

fn sub_menu_items(children: &Vec<MenuJsonItem>) -> (subs: Vec<StatusBarSubMenuItem>)
    ensures
        sub_items_for(subs@, non_separators(children@)),
{
    let mut subs: Vec<StatusBarSubMenuItem> = Vec::new();
    let mut i: usize = 0;
    while i < children.len()
        invariant
            i <= children@.len(),
            sub_items_for(subs@, non_separators(children@.take(i as int))),
        decreases children@.len() - i,
    {
        assert(children@.take(i + 1).drop_last() =~= children@.take(i as int));
        let child = &children[i];
        if !is_separator(child) {
            subs.push(sub_menu_item(child));
        }
        i = i + 1;
    }
    assert(children@.take(children@.len() as int) =~= children@);
    subs
}

fn status_bar_item_of(item: &MenuJsonItem) -> (m: StatusBarMenuItem)
    ensures
        menu_item_for(m, *item),
{
    if str_eq(item.item_type.as_str(), "submenu") {
        let sub_items = match &item.submenu_items {
            Some(children) => sub_menu_items(children),
            None => Vec::new(),
        };
        StatusBarMenuItem {
            title: label_of(&item.text),
            menu_code: None,
            sub_menu: Some(sub_items),
            menu_action: None,
            options: None,
        }
    } else {
        let options = build_item_options(item.item_type.as_str(), item.checked, optional_str(&item.icon));
        StatusBarMenuItem {
            title: label_of(&item.text),
            menu_code: Some(item.id.clone()),
            sub_menu: None,
            menu_action: Some(notify_action(&item.id)),
            options,
        }
    }
}

/// Converts a menu entry into a status-bar entry: a submenu becomes an entry
/// listing its non-separator children, each notifying with its id; any other
/// entry notifies with its own id. Labels lose their mnemonic markers.
pub fn menu_json_item_to_status_bar_item(item: MenuJsonItem) -> (m: StatusBarMenuItem)
    ensures
        menu_item_for(m, item),
{
    status_bar_item_of(&item)
}

// ---------------------------------------------------------------------------
// Grouping at separators
// ---------------------------------------------------------------------------

/// Walking the entries left to right: the groups closed so far and the
/// group being filled. A separator closes a non-empty open group; any other
/// entry joins the open group.
pub open spec fn split_state(items: Seq<MenuJsonItem>) -> (Seq<Seq<MenuJsonItem>>, Seq<MenuJsonItem>)
    decreases items.len(),
{
    if items.len() == 0 {
        (Seq::empty(), Seq::empty())
    } else {
        let (groups, current) = split_state(items.drop_last());
        let item = items.last();
        if separates(item) {
            if current.len() > 0 {
                (groups.push(current), Seq::empty())
            } else {
                (groups, current)
            }
        } else {
            (groups, current.push(item))
        }
    }
}

/// The groups the entries fall into: the closed groups and, if not empty,
/// the last open one.
pub open spec fn item_groups(items: Seq<MenuJsonItem>) -> Seq<Seq<MenuJsonItem>> {
    let (groups, current) = split_state(items);
    if current.len() > 0 {
        groups.push(current)
    } else {
        groups
    }
}

/// `out` are the status-bar entries made from `items`, one each, in order.
pub open spec fn menu_items_for(out: Seq<StatusBarMenuItem>, items: Seq<MenuJsonItem>) -> bool {
    &&& out.len() == items.len()
    &&& forall|j: int| 0 <= j < out.len() ==> menu_item_for(#[trigger] out[j], items[j])
}

/// `out` are the status-bar groups made from the entry groups `groups`.
pub open spec fn menu_groups_for(out: Seq<Vec<StatusBarMenuItem>>, groups: Seq<Seq<MenuJsonItem>>) -> bool {
    &&& out.len() == groups.len()
    &&& forall|i: int| 0 <= i < out.len() ==> menu_items_for(#[trigger] out[i]@, groups[i])
}

/// Converts the entries into status-bar groups, starting a new group at
/// each separator; separators themselves and empty groups are dropped.
pub fn split_items_into_groups(items: Vec<MenuJsonItem>) -> (groups: Vec<Vec<StatusBarMenuItem>>)
    ensures
        menu_groups_for(groups@, item_groups(items@)),
{
    let mut groups: Vec<Vec<StatusBarMenuItem>> = Vec::new();
    let mut current_group: Vec<StatusBarMenuItem> = Vec::new();
    let mut i: usize = 0;
    while i < items.len()
        invariant
            i <= items@.len(),
            menu_groups_for(groups@, split_state(items@.take(i as int)).0),
            menu_items_for(current_group@, split_state(items@.take(i as int)).1),
        decreases items@.len() - i,
    {
        assert(items@.take(i + 1).drop_last() =~= items@.take(i as int));
        let item = &items[i];
        if is_separator(item) {
            if current_group.len() > 0 {
                groups.push(current_group);
                current_group = Vec::new();
            }
        } else {
            current_group.push(status_bar_item_of(item));
        }
        i = i + 1;
    }
    assert(items@.take(items@.len() as int) =~= items@);
    if current_group.len() > 0 {
        groups.push(current_group);
    }
    groups
}

/// The groups written one after another.
pub open spec fn concat_groups(groups: Seq<Seq<MenuJsonItem>>) -> Seq<MenuJsonItem>
    decreases groups.len(),
{
    if groups.len() == 0 {
        Seq::empty()
    } else {
        concat_groups(groups.drop_last()) + groups.last()
    }
}

proof fn lemma_split_state(items: Seq<MenuJsonItem>)
    ensures
        concat_groups(split_state(items).0) + split_state(items).1 == non_separators(items),
        forall|i: int|
            0 <= i < split_state(items).0.len() ==> (#[trigger] split_state(items).0[i]).len() > 0,
    decreases items.len(),
{
    if items.len() > 0 {
        lemma_split_state(items.drop_last());
        let (groups, current) = split_state(items.drop_last());
        if separates(items.last()) && current.len() > 0 {
            assert(groups.push(current).drop_last() =~= groups);
            assert(concat_groups(groups.push(current)) + Seq::<MenuJsonItem>::empty()
                =~= concat_groups(groups) + current);
        } else if !separates(items.last()) {
            assert(concat_groups(groups) + current.push(items.last()) =~= (concat_groups(groups)
                + current).push(items.last()));
        }
    }
}

/// Grouping keeps every non-separator entry, in order, and nothing else:
/// the groups written one after another are exactly those entries, and no
/// group is empty.
pub proof fn lemma_groups_partition_entries(items: Seq<MenuJsonItem>)
    ensures
        concat_groups(item_groups(items)) == non_separators(items),
        forall|i: int| 0 <= i < item_groups(items).len() ==> (#[trigger] item_groups(items)[i]).len() > 0,
{
    lemma_split_state(items);
    let (groups, current) = split_state(items);
    if current.len() > 0 {
        assert(groups.push(current).drop_last() =~= groups);
    } else {
        assert(concat_groups(groups) + current =~= concat_groups(groups));
    }
}

/// No group holds a separator.
pub proof fn lemma_groups_hold_no_separator(items: Seq<MenuJsonItem>, i: int, j: int)
    requires
        0 <= i < item_groups(items).len(),
        0 <= j < item_groups(items)[i].len(),
    ensures
        !separates(item_groups(items)[i][j]),
{
    lemma_groups_partition_entries(items);
    lemma_non_separators_exclude(items);
    lemma_concat_member(item_groups(items), i, j);
}

proof fn lemma_non_separators_exclude(items: Seq<MenuJsonItem>)
    ensures
        forall|k: int| 0 <= k < non_separators(items).len() ==> !separates(#[trigger] non_separators(items)[k]),
    decreases items.len(),
{
    if items.len() > 0 {
        lemma_non_separators_exclude(items.drop_last());
        let prev = non_separators(items.drop_last());
        assert forall|k: int| 0 <= k < non_separators(items).len() implies !separates(
            #[trigger] non_separators(items)[k],
        ) by {
            if k < prev.len() {
                assert(non_separators(items)[k] == prev[k]);
            }
        }
    }
}

proof fn lemma_concat_member(groups: Seq<Seq<MenuJsonItem>>, i: int, j: int)
    requires
        0 <= i < groups.len(),
        0 <= j < groups[i].len(),
    ensures
        exists|k: int| 0 <= k < concat_groups(groups).len() && concat_groups(groups)[k] == groups[i][j],
    decreases groups.len(),
{
    let prefix = concat_groups(groups.drop_last());
    if i == groups.len() - 1 {
        assert(concat_groups(groups)[prefix.len() + j] == groups[i][j]);
    } else {
        lemma_concat_member(groups.drop_last(), i, j);
        let k = choose|k: int| 0 <= k < prefix.len() && prefix[k] == groups.drop_last()[i][j];
        assert(concat_groups(groups)[k] == groups[i][j]);
    }
}

/// A non-separator entry never closes a group: appending one leaves the
/// closed groups as they are and extends the open group by it.
pub proof fn lemma_entry_joins_open_group(items: Seq<MenuJsonItem>, e: MenuJsonItem)
    requires
        !separates(e),
    ensures
        split_state(items.push(e)).0 == split_state(items).0,
        split_state(items.push(e)).1 == split_state(items).1.push(e),
{
    assert(items.push(e).drop_last() =~= items);
}

/// Only separators end a group: a non-empty run of entries with no
/// separator forms exactly one group, holding all of them in order.
pub proof fn lemma_separator_free_run_is_one_group(items: Seq<MenuJsonItem>)
    requires
        items.len() > 0,
        forall|i: int| 0 <= i < items.len() ==> !separates(#[trigger] items[i]),
    ensures
        item_groups(items) == seq![items],
{
    lemma_separator_free_split(items);
    assert(split_state(items).0.push(items) =~= seq![items]);
}

proof fn lemma_separator_free_split(items: Seq<MenuJsonItem>)
    requires
        forall|i: int| 0 <= i < items.len() ==> !separates(#[trigger] items[i]),
    ensures
        split_state(items).0 == Seq::<Seq<MenuJsonItem>>::empty(),
        split_state(items).1 == items,
    decreases items.len(),
{
    if items.len() > 0 {
        let prefix = items.drop_last();
        assert forall|i: int| 0 <= i < prefix.len() implies !separates(#[trigger] prefix[i]) by {
            assert(prefix[i] == items[i]);
        }
        lemma_separator_free_split(prefix);
        assert(!separates(items[items.len() - 1]));
        assert(prefix.push(items.last()) =~= items);
    }
}

/// What a converted entry shows: its label with exactly the `&` removed;
/// an entry that is not a submenu notifies with its own id, and a submenu
/// entry has no action and lists one entry per non-separator child, each
/// notifying with that child's id.
pub proof fn lemma_converted_entry(m: StatusBarMenuItem, item: MenuJsonItem)
    requires
        menu_item_for(m, item),
    ensures
        m.title@ == text_or_empty(item.text).filter(|c: char| c != '&'),
        item.item_type@ != "submenu"@ ==> {
            &&& m.menu_action is Some
            &&& opt_view(m.menu_action->0.menu_code) == Some(item.id@)
            &&& m.menu_action->0.notify_only == Some(true)
            &&& opt_view(m.menu_code) == Some(item.id@)
        },
        item.item_type@ == "submenu"@ ==> {
            &&& m.menu_action is None
            &&& m.sub_menu is Some
            &&& m.sub_menu->0@.len() == non_separators(children_of(item)).len()
            &&& forall|j: int|
                0 <= j < m.sub_menu->0@.len() ==> opt_view(
                    (#[trigger] m.sub_menu->0@[j]).menu_action.menu_code,
                ) == Some(non_separators(children_of(item))[j].id@)
        },
{
    lemma_strip_removes_only_ampersands(text_or_empty(item.text));
    if item.item_type@ == "submenu"@ {
        let subs = m.sub_menu->0@;
        assert forall|j: int| 0 <= j < subs.len() implies opt_view(
            (#[trigger] subs[j]).menu_action.menu_code,
        ) == Some(non_separators(children_of(item))[j].id@) by {
            assert(sub_item_for(subs[j], non_separators(children_of(item))[j]));
        }
    }
}

} // verus!
