//! String-keyed maps and the menu metadata the event handling consults.

use vstd::prelude::*;
use crate::text::str_eq;
use crate::menu::MenuJsonItem;

verus! {

/// A map from strings to values, kept as a list of entries in insertion
/// order with no key occurring twice.
pub struct StrMap<V> {
    entries: Vec<(String, V)>,
}

impl<V> StrMap<V> {
    /// No key occurs twice.
    #[verifier::type_invariant]
    closed spec fn keys_distinct(self) -> bool {
        forall|i: int, j: int|
            0 <= i < j < self.entries@.len() ==> #[trigger] self.entries@[i].0@
                != #[trigger] self.entries@[j].0@
    }

    closed spec fn holds_at(self, k: Seq<char>, i: int) -> bool {
        0 <= i < self.entries@.len() && self.entries@[i].0@ == k
    }

    /// The map from each key's characters to its value.
    pub closed spec fn view(&self) -> Map<Seq<char>, V> {
        Map::new(
            |k: Seq<char>| exists|i: int| self.holds_at(k, i),
            |k: Seq<char>| self.entries@[choose|i: int| self.holds_at(k, i)].1,
        )
    }

    proof fn lemma_entry(self, i: int)
        requires
            self.keys_distinct(),
            0 <= i < self.entries@.len(),
        ensures
            self.view().dom().contains(self.entries@[i].0@),
            self.view()[self.entries@[i].0@] == self.entries@[i].1,
    {
        let k = self.entries@[i].0@;
        assert(self.holds_at(k, i));
        let j = choose|j: int| self.holds_at(k, j);
        if j != i {
            if j < i {
                assert(self.entries@[j].0@ != self.entries@[i].0@);
            } else {
                assert(self.entries@[i].0@ != self.entries@[j].0@);
            }
        }
    }

    /// The empty map.
    pub fn new() -> (m: Self)
        ensures
            m@ == Map::<Seq<char>, V>::empty(),
    {
        let m = StrMap { entries: Vec::new() };
        assert(m@ =~= Map::<Seq<char>, V>::empty());
        m
    }

    fn index_of(&self, key: &str) -> (r: Option<usize>)
        ensures
            r matches Some(i) ==> i < self.entries@.len() && self.entries@[i as int].0@ == key@,
            r is None ==> !self@.dom().contains(key@),
    {
        let mut i: usize = 0;
        while i < self.entries.len()
            invariant
                i <= self.entries@.len(),
                forall|j: int| 0 <= j < i ==> self.entries@[j].0@ != key@,
            decreases self.entries@.len() - i,
        {
            if str_eq(self.entries[i].0.as_str(), key) {
                return Some(i);
            }
            i = i + 1;
        }
        None
    }

    /// Whether the map has an entry for `key`.
    pub fn contains_key(&self, key: &str) -> (r: bool)
        ensures
            r == self@.dom().contains(key@),
    {
        proof {
            use_type_invariant(self);
        }
        match self.index_of(key) {
            Some(i) => {
                proof {
                    self.lemma_entry(i as int);
                }
                true
            },
            None => false,
        }
    }

    /// The value stored for `key`, if any.
    pub fn get(&self, key: &str) -> (r: Option<&V>)
        ensures
            r is Some == self@.dom().contains(key@),
            r matches Some(v) ==> *v == self@[key@],
    {
        proof {
            use_type_invariant(self);
        }
        match self.index_of(key) {
            Some(i) => {
                proof {
                    self.lemma_entry(i as int);
                }
                Some(&self.entries[i].1)
            },
            None => None,
        }
    }

    /// Stores `value` under `key`, replacing any earlier value.
    pub fn insert(&mut self, key: String, value: V)
        ensures
            final(self)@ == old(self)@.insert(key@, value),
    {
        proof {
            use_type_invariant(&*self);
        }
        let ghost old_self: StrMap<V> = *self;
        let ghost k = key@;
        let found = self.index_of(key.as_str());
        let mut entries: Vec<(String, V)> = Vec::new();
        std::mem::swap(&mut entries, &mut self.entries);
        match found {
            Some(i) => {
                proof {
                    assert forall|j: int|
                        0 <= j < old_self.entries@.len() && j != i implies old_self.entries@[j].0@
                        != k by {
                        if j < i {
                            assert(old_self.entries@[j].0@ != old_self.entries@[i as int].0@);
                        } else {
                            assert(old_self.entries@[i as int].0@ != old_self.entries@[j].0@);
                        }
                    }
                }
                entries.set(i, (key, value));
            },
            None => {
                entries.push((key, value));
            },
        }
        proof {
            let oe = old_self.entries@;
            assert(old_self.keys_distinct());
            assert forall|a: int, b: int|
                0 <= a < b < entries@.len() implies #[trigger] entries@[a].0@
                != #[trigger] entries@[b].0@ by {
                match found {
                    Some(i) => {
                        if a != i && b != i {
                            assert(oe[a].0@ != oe[b].0@);
                        }
                    },
                    None => {
                        if b == oe.len() {
                            if oe[a].0@ == k {
                                assert(old_self.holds_at(k, a));
                            }
                        } else {
                            assert(oe[a].0@ != oe[b].0@);
                        }
                    },
                }
            }
        }
        self.entries = entries;
        proof {
            use_type_invariant(&*self);
            let target = old_self@.insert(k, value);
            assert forall|q: Seq<char>| #[trigger] self@.dom().contains(q) == target.dom().contains(q) by {
                if self@.dom().contains(q) {
                    let j = choose|j: int| self.holds_at(q, j);
                    if q != k {
                        assert(old_self.holds_at(q, j));
                    }
                }
                if old_self@.dom().contains(q) {
                    let j = choose|j: int| old_self.holds_at(q, j);
                    assert(self.holds_at(q, j));
                }
                if q == k {
                    match found {
                        Some(i) => assert(self.holds_at(q, i as int)),
                        None => assert(self.holds_at(q, old_self.entries@.len() as int)),
                    }
                }
            }
            assert forall|q: Seq<char>| #[trigger] self@.dom().contains(q) implies self@[q]
                == target[q] by {
                let j = choose|j: int| self.holds_at(q, j);
                self.lemma_entry(j);
                if q != k {
                    assert(old_self.holds_at(q, j));
                    old_self.lemma_entry(j);
                } else {
                    match found {
                        Some(i) => self.lemma_entry(i as int),
                        None => self.lemma_entry(old_self.entries@.len() as int),
                    }
                }
            }
            assert(self@ =~= target);
        }
    }
}

impl StrMap<bool> {
    /// Negates the flag stored for `key`; a missing key leaves the map as
    /// it is.
    pub fn flip(&mut self, key: &str)
        ensures
            final(self)@ == (if old(self)@.dom().contains(key@) {
                old(self)@.insert(key@, !old(self)@[key@])
            } else {
                old(self)@
            }),
    {
        let current = match self.get(key) {
            Some(v) => Some(*v),
            None => None,
        };
        if let Some(v) = current {
            self.insert(key.to_string(), !v);
        }
    }
}

/// What the tray remembers about the menu it shows: which entries are
/// predefined actions, the state of each check entry, the menu's JSON form,
/// and the entry ids in the order the status bar numbers them.
pub struct MenuMetadata {
    pub predefined_map: StrMap<String>,
    pub check_state: StrMap<bool>,
    pub menu_json: Option<String>,
    pub flat_ids: Vec<String>,
}

impl Default for MenuMetadata {
    fn default() -> (r: Self)
        ensures
            r.predefined_map@ == Map::<Seq<char>, String>::empty(),
            r.check_state@ == Map::<Seq<char>, bool>::empty(),
            r.menu_json is None,
            r.flat_ids@.len() == 0,
    {
        MenuMetadata {
            predefined_map: StrMap::new(),
            check_state: StrMap::new(),
            menu_json: None,
            flat_ids: Vec::new(),
        }
    }
}

/// What one entry (without its children) adds: a predefined entry other
/// than a separator records its predefined type, a check entry its state
/// (unchecked where absent).
pub open spec fn collect_entry(
    item: MenuJsonItem,
    pm: Map<Seq<char>, String>,
    cs: Map<Seq<char>, bool>,
) -> (Map<Seq<char>, String>, Map<Seq<char>, bool>) {
    if item.item_type@ == "predefined"@ {
        match item.predefined_type {
            Some(pt) => if pt@ != "separator"@ {
                (pm.insert(item.id@, pt), cs)
            } else {
                (pm, cs)
            },
            None => (pm, cs),
        }
    } else if item.item_type@ == "check"@ {
        (
            pm,
            cs.insert(
                item.id@,
                match item.checked {
                    Some(b) => b,
                    None => false,
                },
            ),
        )
    } else {
        (pm, cs)
    }
}

/// The maps after recording an entry and then, depth first, its children.
pub open spec fn collect_item(
    item: MenuJsonItem,
    pm: Map<Seq<char>, String>,
    cs: Map<Seq<char>, bool>,
) -> (Map<Seq<char>, String>, Map<Seq<char>, bool>)
    decreases item,
{
    let (p, c) = collect_entry(item, pm, cs);
    match item.submenu_items {
        Some(children) => collect_items(children@, p, c),
        None => (p, c),
    }
}

/// The maps after recording the entries in order, each with its children.
pub open spec fn collect_items(
    items: Seq<MenuJsonItem>,
    pm: Map<Seq<char>, String>,
    cs: Map<Seq<char>, bool>,
) -> (Map<Seq<char>, String>, Map<Seq<char>, bool>)
    decreases items,
{
    if items.len() == 0 {
        (pm, cs)
    } else {
        let (p, c) = collect_items(items.drop_last(), pm, cs);
        collect_item(items.last(), p, c)
    }
}

/// Records, for the whole menu tree, each predefined entry's type and each
/// check entry's state, keyed by entry id; later entries override earlier
/// ones with the same id.
pub fn collect_metadata_from_items(
    items: &[MenuJsonItem],
    predefined_map: &mut StrMap<String>,
    check_state: &mut StrMap<bool>,
)
    ensures
        (final(predefined_map)@, final(check_state)@) == collect_items(
            items@,
            old(predefined_map)@,
            old(check_state)@,
        ),
    decreases items@,
{
    let ghost pm0 = predefined_map@;
    let ghost cs0 = check_state@;
    let mut i: usize = 0;
    while i < items.len()
        invariant
            i <= items@.len(),
            (predefined_map@, check_state@) == collect_items(items@.take(i as int), pm0, cs0),
        decreases items@.len() - i,
    {
        assert(items@.take(i + 1).drop_last() =~= items@.take(i as int));
        let item = &items[i];
        let ghost prev = (predefined_map@, check_state@);
        let ghost mid = collect_entry(*item, prev.0, prev.1);
        assert(items@.take(i + 1).last() == *item);
        if str_eq(item.item_type.as_str(), "predefined") {
            if let Some(pt) = &item.predefined_type {
                if !str_eq(pt.as_str(), "separator") {
                    predefined_map.insert(item.id.clone(), pt.clone());
                }
            }
        } else if str_eq(item.item_type.as_str(), "check") {
            let checked = match item.checked {
                Some(b) => b,
                None => false,
            };
            check_state.insert(item.id.clone(), checked);
        }
        assert((predefined_map@, check_state@) == mid);
        if let Some(children) = &item.submenu_items {
            proof {
                assert(decreases_to!(items@ => items@[i as int]));
                assert(decreases_to!(items@[i as int] => items@[i as int].submenu_items));
                assert(decreases_to!(items@[i as int].submenu_items => children));
                assert(decreases_to!(*children => children@));
            }
            collect_metadata_from_items(children.as_slice(), predefined_map, check_state);
        }
        assert((predefined_map@, check_state@) == collect_item(*item, prev.0, prev.1));
        i = i + 1;
    }
    assert(items@.take(items@.len() as int) =~= items@);
}

/// No predefined type recorded is the separator.
pub open spec fn no_separator_recorded(pm: Map<Seq<char>, String>) -> bool {
    forall|k: Seq<char>| #[trigger] pm.dom().contains(k) ==> pm[k]@ != "separator"@
}

proof fn lemma_collect_item_skips_separators(
    item: MenuJsonItem,
    pm: Map<Seq<char>, String>,
    cs: Map<Seq<char>, bool>,
)
    requires
        no_separator_recorded(pm),
    ensures
        no_separator_recorded(collect_item(item, pm, cs).0),
    decreases item,
{
    let (p, c) = collect_entry(item, pm, cs);
    assert(no_separator_recorded(p));
    if let Some(children) = item.submenu_items {
        lemma_collect_skips_separators(children@, p, c);
    }
}

/// Recording a menu never records a separator as a predefined action,
/// however deeply it is nested.
pub proof fn lemma_collect_skips_separators(
    items: Seq<MenuJsonItem>,
    pm: Map<Seq<char>, String>,
    cs: Map<Seq<char>, bool>,
)
    requires
        no_separator_recorded(pm),
    ensures
        no_separator_recorded(collect_items(items, pm, cs).0),
    decreases items,
{
    if items.len() > 0 {
        lemma_collect_skips_separators(items.drop_last(), pm, cs);
        let (p, c) = collect_items(items.drop_last(), pm, cs);
        lemma_collect_item_skips_separators(items.last(), p, c);
    }
}

/// Recording one more entry without children: a predefined entry other
/// than a separator records its predefined type (not its label) under its
/// id, a check entry its state (unchecked where absent), and any other entry
/// changes nothing.
pub proof fn lemma_collect_appended_leaf(
    items: Seq<MenuJsonItem>,
    e: MenuJsonItem,
    pm: Map<Seq<char>, String>,
    cs: Map<Seq<char>, bool>,
)
    requires
        e.submenu_items is None,
    ensures
        ({
            let before = collect_items(items, pm, cs);
            let after = collect_items(items.push(e), pm, cs);
            &&& (e.item_type@ == "predefined"@ && e.predefined_type is Some
                && e.predefined_type->0@ != "separator"@) ==> after.0 == before.0.insert(
                e.id@,
                e.predefined_type->0,
            ) && after.1 == before.1
            &&& (e.item_type@ == "predefined"@ && !(e.predefined_type is Some
                && e.predefined_type->0@ != "separator"@)) ==> after == before
            &&& e.item_type@ == "check"@ ==> after.0 == before.0 && after.1 == before.1.insert(
                e.id@,
                e.checked == Some(true),
            )
            &&& (e.item_type@ != "predefined"@ && e.item_type@ != "check"@) ==> after == before
        }),
{
    assert(items.push(e).drop_last() =~= items);
    reveal_strlit("check");
    reveal_strlit("predefined");
    assert("check"@.len() != "predefined"@.len());
    let before = collect_items(items, pm, cs);
    assert(collect_items(items.push(e), pm, cs) == collect_item(e, before.0, before.1));
    if e.item_type@ == "check"@ {
        assert((match e.checked {
            Some(b) => b,
            None => false,
        }) == (e.checked == Some(true)));
    }
}

} // verus!
