//! The menu tree shown by the host window.

use vstd::prelude::*;
use crate::action::{MenuAction, is_recognized, lemma_ids_distinct, lemma_lookup_exact};

verus! {

/// A leaf of the menu: clicking it triggers `action`.
#[derive(Clone, Copy, Debug)]
pub struct MenuItem {
    pub action: MenuAction,
    pub label: &'static str,
    pub enabled: bool,
}

/// A nested group of leaf items.
#[derive(Debug)]
pub struct Submenu {
    pub label: &'static str,
    pub enabled: bool,
    pub items: Vec<MenuItem>,
}

/// A direct child of a top-level group: a leaf or a nested group.
#[derive(Debug)]
pub enum MenuEntry {
    Item(MenuItem),
    Submenu(Submenu),
}

/// A top-level group of the menu bar.
#[derive(Debug)]
pub struct MenuGroup {
    pub label: &'static str,
    pub enabled: bool,
    pub entries: Vec<MenuEntry>,
}

/// The whole menu: its top-level groups, in order.
#[derive(Debug)]
pub struct Menu {
    pub groups: Vec<MenuGroup>,
}

/// The actions of a run of leaf items, in order.
pub open spec fn items_leaves(items: Seq<MenuItem>) -> Seq<MenuAction> {
    items.map_values(|i: MenuItem| i.action)
}

impl MenuEntry {
    /// The actions of the leaves under this entry, in order.
    pub open spec fn leaves(self) -> Seq<MenuAction> {
        match self {
            MenuEntry::Item(i) => seq![i.action],
            MenuEntry::Submenu(s) => items_leaves(s.items@),
        }
    }
}

/// The actions of the leaves under a run of entries, in order.
pub open spec fn entries_leaves(entries: Seq<MenuEntry>) -> Seq<MenuAction>
    decreases entries.len(),
{
    if entries.len() == 0 {
        Seq::empty()
    } else {
        entries_leaves(entries.drop_last()) + entries.last().leaves()
    }
}

/// The actions of the leaves under a run of top-level groups, in order.
pub open spec fn groups_leaves(groups: Seq<MenuGroup>) -> Seq<MenuAction>
    decreases groups.len(),
{
    if groups.len() == 0 {
        Seq::empty()
    } else {
        groups_leaves(groups.drop_last()) + entries_leaves(groups.last().entries@)
    }
}

/// Whether `i` is an enabled leaf for action `a` shown as `label`.
pub open spec fn is_item(i: MenuItem, a: MenuAction, label: Seq<char>) -> bool {
    &&& i.action == a
    &&& i.label@ == label
    &&& i.enabled
}

/// Whether `e` is an enabled leaf for action `a` shown as `label`.
pub open spec fn is_item_entry(e: MenuEntry, a: MenuAction, label: Seq<char>) -> bool {
    e matches MenuEntry::Item(i) && is_item(i, a, label)
}

/// The actions in the order in which the application menu lists them.
pub open spec fn all_actions() -> Seq<MenuAction> {
    seq![
        MenuAction::Settings,
        MenuAction::Logs,
        MenuAction::Import,
        MenuAction::ExportGlb,
        MenuAction::ExportStl,
    ]
}

impl Menu {
    /// The actions of all leaves of the menu, in the order shown.
    pub open spec fn leaves(self) -> Seq<MenuAction> {
        groups_leaves(self.groups@)
    }

    /// The shape of the application menu: one enabled group "File" holding
    /// Settings, Logs, Import and an enabled group "Export" of GLB and STL.
    pub open spec fn is_app_menu(self) -> bool {
        &&& self.groups@.len() == 1
        &&& self.groups@[0].label@ == "File"@
        &&& self.groups@[0].enabled
        &&& self.groups@[0].entries@.len() == 4
        &&& is_item_entry(self.groups@[0].entries@[0], MenuAction::Settings, "Settings"@)
        &&& is_item_entry(self.groups@[0].entries@[1], MenuAction::Logs, "Logs"@)
        &&& is_item_entry(self.groups@[0].entries@[2], MenuAction::Import, "Import"@)
        &&& self.groups@[0].entries@[3] matches MenuEntry::Submenu(s) && {
            &&& s.label@ == "Export"@
            &&& s.enabled
            &&& s.items@.len() == 2
            &&& is_item(s.items@[0], MenuAction::ExportGlb, "GLB"@)
            &&& is_item(s.items@[1], MenuAction::ExportStl, "STL"@)
        }
    }
}

impl MenuEntry {
    /// The actions of the leaves under this entry, in order.
    pub fn leaf_actions(&self) -> (r: Vec<MenuAction>)
        ensures
            r@ == self.leaves(),
    {
        let mut r: Vec<MenuAction> = Vec::new();
        match self {
            MenuEntry::Item(i) => {
                r.push(i.action);
                assert(r@ =~= self.leaves());
            },
            MenuEntry::Submenu(s) => {
                let mut k: usize = 0;
                while k < s.items.len()
                    invariant
                        k <= s.items@.len(),
                        r@ =~= items_leaves(s.items@.subrange(0, k as int)),
                    decreases s.items@.len() - k,
                {
                    r.push(s.items[k].action);
                    k = k + 1;
                    assert(r@ =~= items_leaves(s.items@.subrange(0, k as int)));
                }
                assert(s.items@.subrange(0, k as int) =~= s.items@);
            },
        }
        r
    }
}

impl Menu {
    /// The actions of all leaves of the menu, in the order shown.
    pub fn leaf_actions(&self) -> (r: Vec<MenuAction>)
        ensures
            r@ == self.leaves(),
    {
        let mut r: Vec<MenuAction> = Vec::new();
        let mut g: usize = 0;
        while g < self.groups.len()
            invariant
                g <= self.groups@.len(),
                r@ == groups_leaves(self.groups@.subrange(0, g as int)),
            decreases self.groups@.len() - g,
        {
            let entries = &self.groups[g].entries;
            let ghost before = r@;
            let mut e: usize = 0;
            while e < entries.len()
                invariant
                    e <= entries@.len(),
                    r@ == before + entries_leaves(entries@.subrange(0, e as int)),
                decreases entries@.len() - e,
            {
                let mut part = entries[e].leaf_actions();
                r.append(&mut part);
                proof {
                    let sub = entries@.subrange(0, e + 1);
                    assert(sub.drop_last() =~= entries@.subrange(0, e as int));
                }
                e = e + 1;
                assert(r@ =~= before + entries_leaves(entries@.subrange(0, e as int)));
            }
            proof {
                assert(entries@.subrange(0, e as int) =~= entries@);
                let sub = self.groups@.subrange(0, g + 1);
                assert(sub.drop_last() =~= self.groups@.subrange(0, g as int));
            }
            g = g + 1;
            assert(r@ =~= groups_leaves(self.groups@.subrange(0, g as int)));
        }
        assert(self.groups@.subrange(0, g as int) =~= self.groups@);
        r
    }
}

/// Builds the application menu.
pub fn build_menu() -> (r: Menu)
    ensures
        r.is_app_menu(),
        r.leaves() == all_actions(),
{
    let mut export_items: Vec<MenuItem> = Vec::new();
    export_items.push(MenuItem { action: MenuAction::ExportGlb, label: "GLB", enabled: true });
    export_items.push(MenuItem { action: MenuAction::ExportStl, label: "STL", enabled: true });
    let export_menu = Submenu { label: "Export", enabled: true, items: export_items };

    let mut entries: Vec<MenuEntry> = Vec::new();
    entries.push(
        MenuEntry::Item(MenuItem { action: MenuAction::Settings, label: "Settings", enabled: true }),
    );
    entries.push(
        MenuEntry::Item(MenuItem { action: MenuAction::Logs, label: "Logs", enabled: true }),
    );
    entries.push(
        MenuEntry::Item(MenuItem { action: MenuAction::Import, label: "Import", enabled: true }),
    );
    entries.push(MenuEntry::Submenu(export_menu));
    let file_menu = MenuGroup { label: "File", enabled: true, entries };

    let mut groups: Vec<MenuGroup> = Vec::new();
    groups.push(file_menu);
    let r = Menu { groups };
    proof {
        lemma_app_menu_leaves(r);
    }
    r
}

/// The application menu has as leaves exactly the recognized actions, each
/// once: their identifiers are pairwise distinct, and an identifier is
/// recognized exactly when some leaf carries it.
pub proof fn lemma_app_menu_leaves(m: Menu)
    requires
        m.is_app_menu(),
    ensures
        m.leaves() == all_actions(),
        m.leaves().len() == 5,
        forall|i: int, j: int|
            0 <= i < j < m.leaves().len() ==> (#[trigger] m.leaves()[i]).spec_id()
                != (#[trigger] m.leaves()[j]).spec_id(),
        forall|s: Seq<char>|
            is_recognized(s) <==> exists|i: int|
                0 <= i < m.leaves().len() && (#[trigger] m.leaves()[i]).spec_id() == s,
{
    let g = m.groups@[0];
    let es = g.entries@;
    let s = es[3]->Submenu_0;
    assert(items_leaves(s.items@) =~= seq![MenuAction::ExportGlb, MenuAction::ExportStl]);
    assert(es.drop_last().drop_last().drop_last().drop_last() =~= Seq::<MenuEntry>::empty());
    assert(entries_leaves(es) =~= all_actions()) by {
        reveal_with_fuel(entries_leaves, 5);
    }
    assert(m.groups@.drop_last() =~= Seq::<MenuGroup>::empty());
    assert(groups_leaves(m.groups@.drop_last()) == Seq::<MenuAction>::empty());
    assert(m.leaves() =~= all_actions());
    assert forall|i: int, j: int| 0 <= i < j < m.leaves().len() implies
        (#[trigger] m.leaves()[i]).spec_id() != (#[trigger] m.leaves()[j]).spec_id() by {
        lemma_ids_distinct(m.leaves()[i], m.leaves()[j]);
    }
    assert forall|t: Seq<char>| is_recognized(t) implies exists|i: int|
        0 <= i < m.leaves().len() && (#[trigger] m.leaves()[i]).spec_id() == t by {
        lemma_lookup_exact(t);
        let a = choose|a: MenuAction| a.spec_id() == t;
        let i: int = match a {
            MenuAction::Settings => 0,
            MenuAction::Logs => 1,
            MenuAction::Import => 2,
            MenuAction::ExportGlb => 3,
            MenuAction::ExportStl => 4,
        };
        assert(m.leaves()[i].spec_id() == t);
    }
}

} // verus!
