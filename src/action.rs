//! The closed set of actions that the menu offers, and their identifiers.

use vstd::prelude::*;
use crate::text::str_eq;

verus! {

/// One of the actions that a menu item triggers.
///
/// Each action has a stable textual identifier, which is both the id of its
/// menu item and the payload of the event sent when the item is clicked.
#[derive(Clone, Copy, Debug, PartialEq, Eq, Structural)]
pub enum MenuAction {
    Settings,
    Logs,
    Import,
    ExportGlb,
    ExportStl,
}

impl MenuAction {
    /// The identifier of the action, as a sequence of characters.
    pub open spec fn spec_id(self) -> Seq<char> {
        match self {
            MenuAction::Settings => "menu_settings"@,
            MenuAction::Logs => "menu_logs"@,
            MenuAction::Import => "menu_import"@,
            MenuAction::ExportGlb => "menu_export_glb"@,
            MenuAction::ExportStl => "menu_export_stl"@,
        }
    }

    /// The identifier of the action.
    pub fn id(&self) -> (r: &'static str)
        ensures
            r@ == self.spec_id(),
    {
        match self {
            MenuAction::Settings => "menu_settings",
            MenuAction::Logs => "menu_logs",
            MenuAction::Import => "menu_import",
            MenuAction::ExportGlb => "menu_export_glb",
            MenuAction::ExportStl => "menu_export_stl",
        }
    }

    /// The action whose identifier is `id`, if there is one.
    pub fn from_id(id: &str) -> (r: Option<MenuAction>)
        ensures
            r == action_for_id(id@),
    {
        if str_eq(id, "menu_settings") {
            Some(MenuAction::Settings)
        } else if str_eq(id, "menu_logs") {
            Some(MenuAction::Logs)
        } else if str_eq(id, "menu_import") {
            Some(MenuAction::Import)
        } else if str_eq(id, "menu_export_glb") {
            Some(MenuAction::ExportGlb)
        } else if str_eq(id, "menu_export_stl") {
            Some(MenuAction::ExportStl)
        } else {
            None
        }
    }
}

/// The action that an identifier names; `None` for any other text.
pub open spec fn action_for_id(s: Seq<char>) -> Option<MenuAction> {
    if s == MenuAction::Settings.spec_id() {
        Some(MenuAction::Settings)
    } else if s == MenuAction::Logs.spec_id() {
        Some(MenuAction::Logs)
    } else if s == MenuAction::Import.spec_id() {
        Some(MenuAction::Import)
    } else if s == MenuAction::ExportGlb.spec_id() {
        Some(MenuAction::ExportGlb)
    } else if s == MenuAction::ExportStl.spec_id() {
        Some(MenuAction::ExportStl)
    } else {
        None
    }
}

/// Whether `s` is the identifier of one of the actions.
pub open spec fn is_recognized(s: Seq<char>) -> bool {
    exists|a: MenuAction| a.spec_id() == s
}

/// Distinct actions have distinct identifiers.
pub proof fn lemma_ids_distinct(a: MenuAction, b: MenuAction)
    requires
        a != b,
    ensures
        a.spec_id() != b.spec_id(),
{
    reveal_strlit("menu_settings");
    reveal_strlit("menu_logs");
    reveal_strlit("menu_import");
    reveal_strlit("menu_export_glb");
    reveal_strlit("menu_export_stl");
    if a.spec_id() == b.spec_id() {
        assert(a.spec_id().len() == b.spec_id().len());
        assert(a.spec_id()[12] == b.spec_id()[12]);
    }
}

/// Looking an action's identifier up gives that action back.
pub proof fn lemma_id_round_trip(a: MenuAction)
    ensures
        action_for_id(a.spec_id()) == Some(a),
{
    if a != MenuAction::Settings {
        lemma_ids_distinct(a, MenuAction::Settings);
    }
    if a != MenuAction::Logs {
        lemma_ids_distinct(a, MenuAction::Logs);
    }
    if a != MenuAction::Import {
        lemma_ids_distinct(a, MenuAction::Import);
    }
    if a != MenuAction::ExportGlb {
        lemma_ids_distinct(a, MenuAction::ExportGlb);
    }
}

/// An identifier is looked up to an action exactly when it is recognized,
/// and then to the action that it names.
pub proof fn lemma_lookup_exact(s: Seq<char>)
    ensures
        action_for_id(s) is Some <==> is_recognized(s),
        action_for_id(s) matches Some(a) ==> a.spec_id() == s,
{
    if is_recognized(s) {
        let a = choose|a: MenuAction| a.spec_id() == s;
        lemma_id_round_trip(a);
    }
    if let Some(a) = action_for_id(s) {
        assert(a.spec_id() == s);
    }
}

} // verus!
