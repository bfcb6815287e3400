use vstd::prelude::*;
use crate::tray::{MenuItem, MenuType, NotifierItem};

verus! {

/// The request sent to a tray item when one of its menu entries is
/// activated.
#[derive(Debug)]
pub struct MenuItemClicked {
    pub submenu_id: i32,
    pub menu_path: String,
    pub notifier_address: String,
}

/// How a menu entry is shown: as a separator or with a label.
#[derive(Debug)]
pub enum MenuEntryKind {
    Separator,
    Labeled(String),
}

/// A menu entry to build: how it looks, what its activation sends, and its
/// submenu, present only when the entry has children.
#[derive(Debug)]
pub struct MenuEntry {
    pub kind: MenuEntryKind,
    pub on_activate: MenuItemClicked,
    pub submenu: Option<Vec<MenuEntry>>,
}

/// A tray menu entry on its way to becoming a widget.
#[derive(Debug)]
pub struct StatusNotifierWrapper {
    pub menu: MenuItem,
}

/// `entry` shows `item` the way the tray menu does: a separator stays a
/// separator, a standard entry carries the item's label, activation sends
/// the item's id with the given address and menu path, and the children
/// become a submenu of entries built the same way.
pub open spec fn entry_shows(
    entry: MenuEntry,
    item: MenuItem,
    notifier_address: Seq<char>,
    menu_path: Seq<char>,
) -> bool
    decreases item,
{
    &&& match item.menu_type {
        MenuType::Separator => entry.kind is Separator,
        MenuType::Standard => entry.kind matches MenuEntryKind::Labeled(label) && label@ == item.label@,
    }
    &&& entry.on_activate.submenu_id == item.id
    &&& entry.on_activate.menu_path@ == menu_path
    &&& entry.on_activate.notifier_address@ == notifier_address
    &&& if item.submenu@.len() == 0 {
        entry.submenu is None
    } else {
        &&& entry.submenu is Some
        &&& entries_show(entry.submenu->0@, item.submenu@, notifier_address, menu_path)
    }
}

/// Each entry shows the item at the same position.
pub open spec fn entries_show(
    entries: Seq<MenuEntry>,
    items: Seq<MenuItem>,
    notifier_address: Seq<char>,
    menu_path: Seq<char>,
) -> bool
    decreases items,
{
    &&& entries.len() == items.len()
    &&& forall|i: int|
        0 <= i < items.len() ==> entry_shows(
            #[trigger] entries[i],
            items[i],
            notifier_address,
            menu_path,
        )
}

/// The item reached from `item` by following `path`: each step picks a
/// child by its position; `None` when a step has no such child.
pub open spec fn item_at(item: MenuItem, path: Seq<int>) -> Option<MenuItem>
    decreases path.len(),
{
    if path.len() == 0 {
        Some(item)
    } else if 0 <= path[0] < item.submenu@.len() {
        item_at(item.submenu@[path[0]], path.drop_first())
    } else {
        None
    }
}

/// The entry reached from `entry` by following `path` through submenus.
pub open spec fn entry_at(entry: MenuEntry, path: Seq<int>) -> Option<MenuEntry>
    decreases path.len(),
{
    if path.len() == 0 {
        Some(entry)
    } else {
        match entry.submenu {
            Some(children) => if 0 <= path[0] < children@.len() {
                entry_at(children@[path[0]], path.drop_first())
            } else {
                None
            },
            None => None,
        }
    }
}

/// The item reached from a list of items: the first step picks the item,
/// the rest goes down its children.
pub open spec fn item_in(items: Seq<MenuItem>, path: Seq<int>) -> Option<MenuItem> {
    if path.len() > 0 && 0 <= path[0] < items.len() {
        item_at(items[path[0]], path.drop_first())
    } else {
        None
    }
}

/// The entry reached from a list of entries, as `item_in`.
pub open spec fn entry_in(entries: Seq<MenuEntry>, path: Seq<int>) -> Option<MenuEntry> {
    if path.len() > 0 && 0 <= path[0] < entries.len() {
        entry_at(entries[path[0]], path.drop_first())
    } else {
        None
    }
}

/// One entry stands for one item: a separator for a separator, the item's
/// label for a standard item; its activation sends the item's id with the
/// given address and menu path; it has a submenu exactly when the item has
/// children, with one entry per child.
pub open spec fn entry_stands_for(
    entry: MenuEntry,
    item: MenuItem,
    notifier_address: Seq<char>,
    menu_path: Seq<char>,
) -> bool {
    &&& (entry.kind is Separator <==> item.menu_type is Separator)
    &&& entry.kind matches MenuEntryKind::Labeled(label) ==> label@ == item.label@
    &&& entry.on_activate.submenu_id == item.id
    &&& entry.on_activate.menu_path@ == menu_path
    &&& entry.on_activate.notifier_address@ == notifier_address
    &&& (entry.submenu is Some <==> item.submenu@.len() > 0)
    &&& entry.submenu matches Some(children) ==> children@.len() == item.submenu@.len()
}

/// The tree of entries built for an item follows the item's tree at every
/// depth: along any path of positions, an entry exists exactly where an
/// item does, and there it stands for that item.
pub proof fn lemma_entry_follows_item_tree(
    entry: MenuEntry,
    item: MenuItem,
    notifier_address: Seq<char>,
    menu_path: Seq<char>,
    path: Seq<int>,
)
    requires
        entry_shows(entry, item, notifier_address, menu_path),
    ensures
        item_at(item, path) is Some <==> entry_at(entry, path) is Some,
        item_at(item, path) matches Some(found) ==> entry_stands_for(
            entry_at(entry, path)->0,
            found,
            notifier_address,
            menu_path,
        ),
    decreases path.len(),
{
    if path.len() == 0 {
        assert(entry_stands_for(entry, item, notifier_address, menu_path));
    } else {
        let k = path[0];
        if item.submenu@.len() > 0 {
            let children = entry.submenu->0@;
            assert(entries_show(children, item.submenu@, notifier_address, menu_path));
            if 0 <= k < item.submenu@.len() {
                assert(entry_shows(children[k], item.submenu@[k], notifier_address, menu_path));
                lemma_entry_follows_item_tree(
                    children[k],
                    item.submenu@[k],
                    notifier_address,
                    menu_path,
                    path.drop_first(),
                );
            }
        }
    }
}

/// The entries built for a list of items follow the items' trees at every
/// depth, as `lemma_entry_follows_item_tree` says of one item.
pub proof fn lemma_entries_follow_item_trees(
    entries: Seq<MenuEntry>,
    items: Seq<MenuItem>,
    notifier_address: Seq<char>,
    menu_path: Seq<char>,
    path: Seq<int>,
)
    requires
        entries_show(entries, items, notifier_address, menu_path),
    ensures
        item_in(items, path) is Some <==> entry_in(entries, path) is Some,
        item_in(items, path) matches Some(found) ==> entry_stands_for(
            entry_in(entries, path)->0,
            found,
            notifier_address,
            menu_path,
        ),
{
    if path.len() > 0 && 0 <= path[0] < items.len() {
        assert(entry_shows(entries[path[0]], items[path[0]], notifier_address, menu_path));
        lemma_entry_follows_item_tree(
            entries[path[0]],
            items[path[0]],
            notifier_address,
            menu_path,
            path.drop_first(),
        );
    }
}

fn entry_for(item: &MenuItem, notifier_address: &String, menu_path: &String) -> (entry: MenuEntry)
    ensures
        entry_shows(entry, *item, notifier_address@, menu_path@),
    decreases item,
{
    let kind = match item.menu_type {
        MenuType::Separator => MenuEntryKind::Separator,
        MenuType::Standard => MenuEntryKind::Labeled(item.label.clone()),
    };
    let on_activate = MenuItemClicked {
        submenu_id: item.id,
        menu_path: menu_path.clone(),
        notifier_address: notifier_address.clone(),
    };
    let submenu = if item.submenu.len() == 0 {
        None
    } else {
        Some(entries_for(&item.submenu, notifier_address, menu_path))
    };
    MenuEntry { kind, on_activate, submenu }
}

fn entries_for(items: &Vec<MenuItem>, notifier_address: &String, menu_path: &String) -> (entries: Vec<MenuEntry>)
    ensures
        entries_show(entries@, items@, notifier_address@, menu_path@),
    decreases items,
{
    let mut entries: Vec<MenuEntry> = Vec::new();
    let mut i: usize = 0;
    while i < items.len()
        invariant
            i <= items@.len(),
            entries@.len() == i,
            forall|j: int|
                0 <= j < i ==> entry_shows(
                    #[trigger] entries@[j],
                    items@[j],
                    notifier_address@,
                    menu_path@,
                ),
        decreases items@.len() - i,
    {
        let entry = entry_for(&items[i], notifier_address, menu_path);
        entries.push(entry);
        i = i + 1;
    }
    entries
}

impl StatusNotifierWrapper {
    /// The entry that shows this menu item for the tray item at
    /// `notifier_address` whose menu lives at `menu_path`.
    pub fn into_menu_item(self, notifier_address: String, menu_path: String) -> (entry: MenuEntry)
        ensures
            entry_shows(entry, self.menu, notifier_address@, menu_path@),
            forall|path: Seq<int>|
                #![trigger item_at(self.menu, path)]
                #![trigger entry_at(entry, path)]
                (item_at(self.menu, path) is Some <==> entry_at(entry, path) is Some) && (item_at(
                    self.menu,
                    path,
                ) matches Some(found) ==> entry_stands_for(
                    entry_at(entry, path)->0,
                    found,
                    notifier_address@,
                    menu_path@,
                )),
    {
        let entry = entry_for(&self.menu, &notifier_address, &menu_path);
        assert forall|path: Seq<int>|
            #![trigger item_at(self.menu, path)]
            #![trigger entry_at(entry, path)]
            (item_at(self.menu, path) is Some <==> entry_at(entry, path) is Some) && (item_at(
                self.menu,
                path,
            ) matches Some(found) ==> entry_stands_for(
                entry_at(entry, path)->0,
                found,
                notifier_address@,
                menu_path@,
            )) by {
            lemma_entry_follows_item_tree(entry, self.menu, notifier_address@, menu_path@, path);
        }
        entry
    }
}

/// The tray item has a menu with at least one entry.
pub open spec fn has_menu_entries(item: NotifierItem) -> bool {
    item.menu matches Some(menu) && menu.submenus@.len() > 0
}

/// The submenu of a tray item's bar entry: the entries of its menu layout,
/// each activating through the item's address and menu path; `None` when the
/// item has no menu layout or an empty one.
pub fn tray_menu_entries(address: &String, item: &NotifierItem) -> (entries: Option<Vec<MenuEntry>>)
    requires
        has_menu_entries(*item) ==> item.item.menu is Some,
    ensures
        entries is Some <==> has_menu_entries(*item),
        entries is Some <==> (item.menu matches Some(menu) && menu.submenus@.len() != 0),
        entries matches Some(entries) ==> entries_show(
            entries@,
            item.menu->0.submenus@,
            address@,
            item.item.menu->0@,
        ),
        entries matches Some(entries) ==> entries@.len() == item.menu->0.submenus@.len(),
        entries matches Some(entries) ==> forall|path: Seq<int>|
            #![trigger item_in(item.menu->0.submenus@, path)]
            #![trigger entry_in(entries@, path)]
            (item_in(item.menu->0.submenus@, path) is Some <==> entry_in(entries@, path) is Some)
                && (item_in(item.menu->0.submenus@, path) matches Some(found) ==> entry_stands_for(
                entry_in(entries@, path)->0,
                found,
                address@,
                item.item.menu->0@,
            )),
{
    let entries = tray_menu_layout(address, item);
    proof {
        if entries is Some {
            let built = entries->0;
            let items = item.menu->0.submenus@;
            assert forall|path: Seq<int>|
                #![trigger item_in(items, path)]
                #![trigger entry_in(built@, path)]
                (item_in(items, path) is Some <==> entry_in(built@, path) is Some) && (item_in(
                    items,
                    path,
                ) matches Some(found) ==> entry_stands_for(
                    entry_in(built@, path)->0,
                    found,
                    address@,
                    item.item.menu->0@,
                )) by {
                lemma_entries_follow_item_trees(built@, items, address@, item.item.menu->0@, path);
            }
        }
    }
    entries
}

fn tray_menu_layout(address: &String, item: &NotifierItem) -> (entries: Option<Vec<MenuEntry>>)
    requires
        has_menu_entries(*item) ==> item.item.menu is Some,
    ensures
        entries is Some <==> has_menu_entries(*item),
        entries matches Some(entries) ==> entries_show(
            entries@,
            item.menu->0.submenus@,
            address@,
            item.item.menu->0@,
        ),
{
    match &item.menu {
        Some(menu) => {
            if menu.submenus.len() == 0 {
                None
            } else {
                match &item.item.menu {
                    Some(path) => Some(entries_for(&menu.submenus, address, path)),
                    None => None,
                }
            }
        },
        None => None,
    }
}

} // verus!
