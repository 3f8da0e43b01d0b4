//! Tray events: which tray the events belong to, and how a status-bar menu
//! click is resolved against the menu metadata.

use vstd::prelude::*;
use crate::metadata::MenuMetadata;
use crate::text::{parse_usize, parsed_usize, str_eq};

verus! {

/// The identifier of a tray icon.
#[derive(Debug, Clone, PartialEq, Eq)]
pub struct TrayIconId(pub String);

impl TrayIconId {
    pub open spec fn view(&self) -> Seq<char> {
        self.0@
    }

    /// An identifier with the given text.
    pub fn new(id: &str) -> (r: TrayIconId)
        ensures
            r@ == id@,
    {
        TrayIconId(id.to_string())
    }
}

/// The tray that status-bar events are reported for. The status bar holds
/// one tray at a time, but trays may be created and dropped over time.
pub struct TrayIdRegistry {
    pub current: Option<TrayIconId>,
}

impl TrayIdRegistry {
    /// No tray registered yet.
    pub fn new() -> (r: TrayIdRegistry)
        ensures
            r.current is None,
    {
        TrayIdRegistry { current: None }
    }
}

/// The id events are reported with: the registered tray's, else "main".
pub open spec fn current_tray_id(current: Option<TrayIconId>) -> Seq<char> {
    match current {
        Some(id) => id@,
        None => "main"@,
    }
}

/// Makes `id` the tray that events are reported for.
pub fn register_tray_id(registry: &mut TrayIdRegistry, id: TrayIconId)
    ensures
        final(registry).current == Some(id),
{
    registry.current = Some(id);
}

/// The id of the registered tray, or "main" where none is.
pub fn get_current_tray_id(registry: &TrayIdRegistry) -> (r: TrayIconId)
    ensures
        r@ == current_tray_id(registry.current),
{
    match &registry.current {
        Some(id) => TrayIconId(id.0.clone()),
        None => TrayIconId::new("main"),
    }
}

/// Events name the tray registered last; before any registration they
/// name "main".
pub proof fn lemma_events_name_last_registered(first: TrayIconId, second: TrayIconId)
    ensures
        current_tray_id(None) == "main"@,
        current_tray_id(Some(first)) == first@,
        current_tray_id(Some(second)) == second@,
{
}

/// The entry id a status-bar menu code stands for. Where the menu has been
/// numbered, a code that parses as an index of the numbering stands for the
/// id at that index; any other code stands for itself.
pub open spec fn translated_code(flat_ids: Seq<String>, raw_code: Seq<char>) -> Seq<char> {
    if flat_ids.len() == 0 {
        raw_code
    } else {
        match parsed_usize(raw_code) {
            Some(idx) if idx < flat_ids.len() => flat_ids[idx as int]@,
            _ => raw_code,
        }
    }
}

/// Translates a menu code reported by the status bar back to the entry id.
pub fn translate_menu_code(metadata: &MenuMetadata, raw_code: &str) -> (r: String)
    ensures
        r@ == translated_code(metadata.flat_ids@, raw_code@),
{
    if metadata.flat_ids.len() == 0 {
        return raw_code.to_string();
    }
    match parse_usize(raw_code) {
        Some(idx) => {
            if idx < metadata.flat_ids.len() {
                metadata.flat_ids[idx].clone()
            } else {
                raw_code.to_string()
            }
        },
        None => raw_code.to_string(),
    }
}

/// What a click on a menu entry asks for.
#[derive(Debug, Clone, PartialEq, Eq)]
pub enum MenuAction {
    /// A predefined action, by its predefined type.
    Predefined(String),
    /// Toggling a check entry, by its id.
    Check(String),
    /// Notifying the application only.
    Regular,
}

/// The action for a click on entry `code`: predefined entries first, then
/// check entries, else a plain notification.
pub open spec fn menu_action_spec(metadata: MenuMetadata, code: Seq<char>, action: MenuAction) -> bool {
    if metadata.predefined_map@.dom().contains(code) {
        action == MenuAction::Predefined(metadata.predefined_map@[code])
    } else if metadata.check_state@.dom().contains(code) {
        action matches MenuAction::Check(c) && c@ == code
    } else {
        action == MenuAction::Regular
    }
}

/// Classifies a click on entry `menu_code` by the menu metadata.
pub fn menu_action_for(metadata: &MenuMetadata, menu_code: &str) -> (r: MenuAction)
    ensures
        menu_action_spec(*metadata, menu_code@, r),
{
    if let Some(predefined_type) = metadata.predefined_map.get(menu_code) {
        MenuAction::Predefined(predefined_type.clone())
    } else if metadata.check_state.contains_key(menu_code) {
        MenuAction::Check(menu_code.to_string())
    } else {
        MenuAction::Regular
    }
}

/// The check states after toggling entry `code`: its state is negated;
/// an entry without a state is left alone.
pub open spec fn toggled(cs: Map<Seq<char>, bool>, code: Seq<char>) -> Map<Seq<char>, bool> {
    if cs.dom().contains(code) {
        cs.insert(code, !cs[code])
    } else {
        cs
    }
}

/// Toggles the check state of entry `menu_code` and hands back the menu's
/// JSON text, from which the menu is rebuilt. Nothing else changes.
pub fn toggle_check_item(metadata: &mut MenuMetadata, menu_code: &str) -> (r: Option<String>)
    ensures
        final(metadata).check_state@ == toggled(old(metadata).check_state@, menu_code@),
        final(metadata).predefined_map@ == old(metadata).predefined_map@,
        final(metadata).menu_json == old(metadata).menu_json,
        final(metadata).flat_ids == old(metadata).flat_ids,
        r == old(metadata).menu_json,
{
    metadata.check_state.flip(menu_code);
    metadata.menu_json.clone()
}

/// Toggling an entry twice restores every check state.
pub proof fn lemma_toggle_twice_restores(cs: Map<Seq<char>, bool>, code: Seq<char>)
    ensures
        toggled(toggled(cs, code), code) == cs,
{
    if cs.dom().contains(code) {
        assert(toggled(toggled(cs, code), code) =~= cs);
    }
}

/// Toggling one entry leaves the states of all other entries as they are.
pub proof fn lemma_toggle_is_local(cs: Map<Seq<char>, bool>, code: Seq<char>, other: Seq<char>)
    requires
        other != code,
    ensures
        toggled(cs, code).dom().contains(other) == cs.dom().contains(other),
        cs.dom().contains(other) ==> toggled(cs, code)[other] == cs[other],
{
}

/// How a predefined action is carried out.
#[derive(Debug, Clone, Copy, PartialEq, Eq)]
pub enum PredefinedAction {
    /// Quit the application.
    Quit,
    /// Handed to the status bar to perform.
    System,
    /// Not supported here; ignored.
    Unsupported,
}

/// The predefined types the status bar performs itself.
pub open spec fn is_system_predefined(t: Seq<char>) -> bool {
    ||| t == "minimize"@
    ||| t == "hide"@
    ||| t == "maximize"@
    ||| t == "close"@
    ||| t == "fullscreen"@
    ||| t == "about"@
    ||| t == "copy"@
    ||| t == "cut"@
    ||| t == "paste"@
    ||| t == "selectAll"@
    ||| t == "undo"@
    ||| t == "redo"@
    ||| t == "recover"@
}

/// How the predefined action `predefined_type` is carried out: "quit" quits,
/// the window and editing actions go to the status bar, others are ignored.
pub fn predefined_action_kind(predefined_type: &str) -> (r: PredefinedAction)
    ensures
        r == (if predefined_type@ == "quit"@ {
            PredefinedAction::Quit
        } else if is_system_predefined(predefined_type@) {
            PredefinedAction::System
        } else {
            PredefinedAction::Unsupported
        }),
{
    if str_eq(predefined_type, "quit") {
        return PredefinedAction::Quit;
    }
    let system = str_eq(predefined_type, "minimize") || str_eq(predefined_type, "hide")
        || str_eq(predefined_type, "maximize") || str_eq(predefined_type, "close") || str_eq(
        predefined_type,
        "fullscreen",
    ) || str_eq(predefined_type, "about") || str_eq(predefined_type, "copy") || str_eq(
        predefined_type,
        "cut",
    ) || str_eq(predefined_type, "paste") || str_eq(predefined_type, "selectAll") || str_eq(
        predefined_type,
        "undo",
    ) || str_eq(predefined_type, "redo") || str_eq(predefined_type, "recover");
    if system {
        PredefinedAction::System
    } else {
        PredefinedAction::Unsupported
    }
}

/// What to do after a menu click.
#[derive(Debug)]
pub enum MenuClick {
    /// Carry out a predefined action.
    Predefined { predefined_type: String, kind: PredefinedAction },
    /// A check entry was toggled: rebuild the menu from `menu_json` (if any)
    /// and notify the application with `code`.
    Toggled { code: String, menu_json: Option<String> },
    /// Notify the application with `code`.
    Regular { code: String },
}

/// Resolves a status-bar menu click: the reported code is translated to an
/// entry id, which is classified; a check entry's state is toggled.
pub fn handle_menu_click(metadata: &mut MenuMetadata, raw_code: &str) -> (r: MenuClick)
    ensures
        ({
            let code = translated_code(old(metadata).flat_ids@, raw_code@);
            let pm = old(metadata).predefined_map@;
            let cs = old(metadata).check_state@;
            &&& final(metadata).predefined_map@ == pm
            &&& final(metadata).menu_json == old(metadata).menu_json
            &&& final(metadata).flat_ids == old(metadata).flat_ids
            &&& if pm.dom().contains(code) {
                &&& final(metadata).check_state@ == cs
                &&& r matches MenuClick::Predefined { predefined_type, kind }
                &&& predefined_type == pm[code]
                &&& kind == (if pm[code]@ == "quit"@ {
                    PredefinedAction::Quit
                } else if is_system_predefined(pm[code]@) {
                    PredefinedAction::System
                } else {
                    PredefinedAction::Unsupported
                })
            } else if cs.dom().contains(code) {
                &&& final(metadata).check_state@ == toggled(cs, code)
                &&& r matches MenuClick::Toggled { code: c, menu_json }
                &&& c@ == code
                &&& menu_json == old(metadata).menu_json
            } else {
                &&& final(metadata).check_state@ == cs
                &&& r matches MenuClick::Regular { code: c }
                &&& c@ == code
            }
        }),
{
    let menu_code = translate_menu_code(metadata, raw_code);
    let action = menu_action_for(metadata, menu_code.as_str());
    match action {
        MenuAction::Predefined(predefined_type) => {
            let kind = predefined_action_kind(predefined_type.as_str());
            MenuClick::Predefined { predefined_type, kind }
        },
        MenuAction::Check(code) => {
            let menu_json = toggle_check_item(metadata, code.as_str());
            MenuClick::Toggled { code, menu_json }
        },
        MenuAction::Regular => MenuClick::Regular { code: menu_code },
    }
}

} // verus!
