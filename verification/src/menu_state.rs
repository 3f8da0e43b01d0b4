//! Turning the tray's menu into status-bar groups together with the
//! metadata that click handling consults, and re-applying check states to a
//! menu before it is shown again.

use vstd::prelude::*;
use crate::menu::{
    MenuJsonItem, StatusBarMenuItem, item_groups, menu_groups_for, split_items_into_groups,
};
use crate::metadata::{StrMap, collect_items, collect_metadata_from_items};

verus! {

/// A menu as its JSON text and the entries parsed from it (no entries where
/// the text does not parse).
pub struct ContextMenuJson {
    pub json: String,
    pub items: Vec<MenuJsonItem>,
}

/// The status-bar groups of a menu, `None` where there is no menu or it
/// yields no group.
pub open spec fn menu_groups_spec(out: Option<Vec<Vec<StatusBarMenuItem>>>, items: Seq<MenuJsonItem>) -> bool {
    if item_groups(items).len() == 0 {
        out is None
    } else {
        out is Some && menu_groups_for(out->0@, item_groups(items))
    }
}

proof fn lemma_no_items_no_groups(items: Seq<MenuJsonItem>)
    requires
        items.len() == 0,
    ensures
        item_groups(items).len() == 0,
{
}

/// The status-bar groups of the tray's menu (its parsed entries), or `None`
/// where there is no menu or it yields no group.
pub fn menu_to_status_bar_items(menu: Option<Vec<MenuJsonItem>>) -> (r: Option<
    Vec<Vec<StatusBarMenuItem>>,
>)
    ensures
        match menu {
            None => r is None,
            Some(items) => menu_groups_spec(r, items@),
        },
{
    match menu {
        None => None,
        Some(items) => {
            if items.len() == 0 {
                proof {
                    lemma_no_items_no_groups(items@);
                }
                return None;
            }
            let groups = split_items_into_groups(items);
            if groups.len() == 0 {
                None
            } else {
                Some(groups)
            }
        },
    }
}

/// The status-bar groups of the tray's menu with its metadata: the
/// predefined entries' types, the check entries' states and the menu's JSON
/// text. Without a menu, or with one that has no entries, all are empty.
pub fn menu_to_status_bar_items_with_metadata(menu: Option<ContextMenuJson>) -> (r: (
    Option<Vec<Vec<StatusBarMenuItem>>>,
    StrMap<String>,
    StrMap<bool>,
    Option<String>,
))
    ensures
        match menu {
            Some(m) if m.items@.len() > 0 => {
                &&& menu_groups_spec(r.0, m.items@)
                &&& (r.1@, r.2@) == collect_items(
                    m.items@,
                    Map::<Seq<char>, String>::empty(),
                    Map::<Seq<char>, bool>::empty(),
                )
                &&& r.3 == Some(m.json)
            },
            _ => {
                &&& r.0 is None
                &&& r.1@ == Map::<Seq<char>, String>::empty()
                &&& r.2@ == Map::<Seq<char>, bool>::empty()
                &&& r.3 is None
            },
        },
{
    let m = match menu {
        Some(m) => m,
        None => {
            return (None, StrMap::new(), StrMap::new(), None);
        },
    };
    let ContextMenuJson { json, items } = m;
    if items.len() == 0 {
        return (None, StrMap::new(), StrMap::new(), None);
    }
    let mut predefined_map: StrMap<String> = StrMap::new();
    let mut check_state: StrMap<bool> = StrMap::new();
    collect_metadata_from_items(items.as_slice(), &mut predefined_map, &mut check_state);
    let groups = split_items_into_groups(items);
    let result = if groups.len() == 0 {
        None
    } else {
        Some(groups)
    };
    (result, predefined_map, check_state, Some(json))
}

/// `new` is `old` with check states applied: an entry whose id has a
/// recorded state carries it as `checked`; everything else is unchanged.
pub open spec fn patched_item(new: MenuJsonItem, old: MenuJsonItem, cs: Map<Seq<char>, bool>) -> bool
    decreases old,
{
    &&& new.id == old.id
    &&& new.text == old.text
    &&& new.item_type == old.item_type
    &&& new.enabled == old.enabled
    &&& new.accelerator == old.accelerator
    &&& new.predefined_type == old.predefined_type
    &&& new.icon == old.icon
    &&& new.about_metadata == old.about_metadata
    &&& new.checked == (if cs.dom().contains(old.id@) {
        Some(cs[old.id@])
    } else {
        old.checked
    })
    &&& match old.submenu_items {
        None => new.submenu_items is None,
        Some(oc) => new.submenu_items is Some && patched_items(new.submenu_items->0@, oc@, cs),
    }
}

/// The entries `new` are the entries `old` with check states applied.
pub open spec fn patched_items(new: Seq<MenuJsonItem>, old: Seq<MenuJsonItem>, cs: Map<Seq<char>, bool>) -> bool
    decreases old,
{
    &&& new.len() == old.len()
    &&& old.len() > 0 ==> {
        &&& patched_items(new.drop_last(), old.drop_last(), cs)
        &&& patched_item(new.last(), old.last(), cs)
    }
}

/// Sets `checked` on every entry of the menu tree whose id has a recorded
/// check state, to that state.
pub fn patch_items(items: Vec<MenuJsonItem>, check_state: &StrMap<bool>) -> (r: Vec<MenuJsonItem>)
    ensures
        patched_items(r@, items@, check_state@),
{
    patch_entries(items, check_state, Ghost(items@))
}

fn patch_entries(
    mut items: Vec<MenuJsonItem>,
    check_state: &StrMap<bool>,
    Ghost(orig): Ghost<Seq<MenuJsonItem>>,
) -> (r: Vec<MenuJsonItem>)
    requires
        items@ == orig,
    ensures
        patched_items(r@, orig, check_state@),
    decreases orig,
{
    let mut out: Vec<MenuJsonItem> = Vec::new();
    let ghost mut k: int = 0;
    while items.len() > 0
        invariant
            0 <= k <= orig.len(),
            items@ == orig.skip(k),
            patched_items(out@, orig.take(k), check_state@),
        decreases items@.len(),
    {
        let item = items.remove(0);
        assert(item == orig[k]);
        let MenuJsonItem {
            id,
            text,
            item_type,
            enabled,
            accelerator,
            predefined_type,
            submenu_items,
            checked,
            icon,
            about_metadata,
        } = item;
        let checked = match check_state.get(id.as_str()) {
            Some(v) => Some(*v),
            None => checked,
        };
        let submenu_items = match submenu_items {
            Some(children) => {
                proof {
                    assert(decreases_to!(orig => orig[k]));
                    assert(decreases_to!(orig[k] => orig[k].submenu_items));
                    assert(decreases_to!(orig[k].submenu_items => children));
                    assert(decreases_to!(children => children@));
                    assert(decreases_to!(orig => children@));
                }
                Some(patch_entries(children, check_state, Ghost(children@)))
            },
            None => None,
        };
        let patched = MenuJsonItem {
            id,
            text,
            item_type,
            enabled,
            accelerator,
            predefined_type,
            submenu_items,
            checked,
            icon,
            about_metadata,
        };
        let ghost before = out@;
        out.push(patched);
        proof {
            assert(orig.take(k + 1).drop_last() =~= orig.take(k));
            assert(out@.drop_last() =~= before);
            assert(orig.skip(k).drop_first() =~= orig.skip(k + 1));
            assert(orig.take(k + 1).last() == orig[k]);
            assert(patched_item(patched, orig[k], check_state@));
            k = k + 1;
        }
    }
    assert(orig.take(k) =~= orig);
    out
}

/// `new` is `old` with check states applied, stated field by field at
/// every depth: `checked` comes from `cs` where `cs` has the entry's id and
/// is kept otherwise; every other field, the icon among them, is kept; each
/// submenu keeps its length and its children are treated alike.
pub open spec fn checks_applied(new: MenuJsonItem, old: MenuJsonItem, cs: Map<Seq<char>, bool>) -> bool
    decreases old,
{
    &&& new.id == old.id
    &&& new.text == old.text
    &&& new.item_type == old.item_type
    &&& new.enabled == old.enabled
    &&& new.accelerator == old.accelerator
    &&& new.predefined_type == old.predefined_type
    &&& new.icon == old.icon
    &&& new.about_metadata == old.about_metadata
    &&& cs.dom().contains(old.id@) ==> new.checked == Some(cs[old.id@])
    &&& !cs.dom().contains(old.id@) ==> new.checked == old.checked
    &&& old.submenu_items is None ==> new.submenu_items is None
    &&& old.submenu_items is Some ==> {
        &&& new.submenu_items is Some
        &&& new.submenu_items->0@.len() == old.submenu_items->0@.len()
        &&& forall|j: int|
            0 <= j < old.submenu_items->0@.len() ==> checks_applied(
                #[trigger] new.submenu_items->0@[j],
                old.submenu_items->0@[j],
                cs,
            )
    }
}

proof fn lemma_patched_item_applies_checks(new: MenuJsonItem, old: MenuJsonItem, cs: Map<Seq<char>, bool>)
    requires
        patched_item(new, old, cs),
    ensures
        checks_applied(new, old, cs),
    decreases old, 1nat,
{
    if let Some(oc) = old.submenu_items {
        let nc = new.submenu_items->0@;
        lemma_patched_items_apply_checks(nc, oc@, cs);
        assert forall|j: int| 0 <= j < oc@.len() implies checks_applied(
            #[trigger] nc[j],
            oc@[j],
            cs,
        ) by {}
    }
}

proof fn lemma_patched_items_apply_checks(new: Seq<MenuJsonItem>, old: Seq<MenuJsonItem>, cs: Map<Seq<char>, bool>)
    requires
        patched_items(new, old, cs),
    ensures
        new.len() == old.len(),
        forall|i: int| 0 <= i < old.len() ==> checks_applied(#[trigger] new[i], old[i], cs),
    decreases old, 0nat,
{
    if old.len() > 0 {
        lemma_patched_items_apply_checks(new.drop_last(), old.drop_last(), cs);
        lemma_patched_item_applies_checks(new.last(), old.last(), cs);
        assert forall|i: int| 0 <= i < old.len() implies checks_applied(#[trigger] new[i], old[i], cs) by {
            if i < old.len() - 1 {
                assert(new[i] == new.drop_last()[i]);
                assert(old[i] == old.drop_last()[i]);
            }
        }
    }
}

/// Applying check states changes only `checked`, at every depth of the
/// menu tree: every other field of every entry, its icon among them, is
/// the original entry's, and `checked` is the recorded state where there is
/// one.
pub proof fn lemma_patch_changes_only_checked(
    patched: Seq<MenuJsonItem>,
    items: Seq<MenuJsonItem>,
    cs: Map<Seq<char>, bool>,
)
    requires
        patched_items(patched, items, cs),
    ensures
        patched.len() == items.len(),
        forall|i: int| 0 <= i < items.len() ==> checks_applied(#[trigger] patched[i], items[i], cs),
{
    lemma_patched_items_apply_checks(patched, items, cs);
}

} // verus!
