use vstd::prelude::*;
use crate::pixmap::IconPixmap;

verus! {

/// Whether a menu entry is a separator or an ordinary entry.
#[derive(Clone, Copy, Debug, PartialEq, Eq, Structural)]
pub enum MenuType {
    Separator,
    Standard,
}

/// One entry of a tray item's menu, with the entries of its submenu.
#[derive(Debug)]
pub struct MenuItem {
    pub id: i32,
    pub label: String,
    pub menu_type: MenuType,
    pub submenu: Vec<MenuItem>,
}

/// The menu layout a tray item publishes.
#[derive(Debug)]
pub struct TrayMenu {
    pub id: u32,
    pub submenus: Vec<MenuItem>,
}

/// What the bar reads of a tray item: its icon, given by name (with an
/// optional extra theme path) or as pixmaps, and the object path of its menu.
#[derive(Clone, Debug)]
pub struct StatusNotifierItem {
    pub id: String,
    pub icon_name: Option<String>,
    pub icon_theme_path: Option<String>,
    pub icon_pixmap: Option<Vec<IconPixmap>>,
    pub menu: Option<String>,
}

/// A tray item together with its menu layout.
#[derive(Debug)]
pub struct NotifierItem {
    pub item: StatusNotifierItem,
    pub menu: Option<TrayMenu>,
}

/// A change of the tray that the tray host reports.
#[derive(Debug)]
pub enum NotifierItemMessage {
    /// The item at `address` appeared or changed.
    Update { address: String, item: StatusNotifierItem, menu: Option<TrayMenu> },
    /// The item at `address` went away.
    Remove { address: String },
}

/// The tray after one message: an update stores the item under its
/// address, replacing what was there; a removal forgets the address.
pub open spec fn apply_message(
    state: Map<Seq<char>, NotifierItem>,
    message: NotifierItemMessage,
) -> Map<Seq<char>, NotifierItem> {
    match message {
        NotifierItemMessage::Update { address, item, menu } => state.insert(
            address@,
            NotifierItem { item, menu },
        ),
        NotifierItemMessage::Remove { address } => state.remove(address@),
    }
}

/// The entries of the tray, with the map they stand for.
struct TrayEntries {
    items: Vec<(String, NotifierItem)>,
    contents: Ghost<Map<Seq<char>, NotifierItem>>,
}

impl View for TrayEntries {
    type V = Map<Seq<char>, NotifierItem>;

    closed spec fn view(&self) -> Map<Seq<char>, NotifierItem> {
        self.contents@
    }
}

pub open spec fn entries_match(
    items: Seq<(String, NotifierItem)>,
    contents: Map<Seq<char>, NotifierItem>,
) -> bool {
    &&& forall|i: int|
        0 <= i < items.len() ==> #[trigger] contents.contains_key(items[i].0@)
            && contents[items[i].0@] == items[i].1
    &&& forall|a: Seq<char>|
        #[trigger] contents.contains_key(a) ==> exists|i: int|
            0 <= i < items.len() && #[trigger] items[i].0@ == a
    &&& forall|i: int, j: int|
        0 <= i < items.len() && 0 <= j < items.len() && i != j ==> #[trigger] items[i].0@
            != #[trigger] items[j].0@
}

impl TrayEntries {
    /// The stored entries match the tray's contents, one entry per address.
    spec fn wf(&self) -> bool {
        entries_match(self.items@, self.contents@)
    }

    /// An empty tray.
    fn new() -> (tray: Self)
        ensures
            tray.wf(),
            tray@ == Map::<Seq<char>, NotifierItem>::empty(),
    {
        TrayEntries { items: Vec::new(), contents: Ghost(Map::empty()) }
    }

    /// The position of the entry for `address`, if there is one.
    fn find(&self, address: &String) -> (position: Option<usize>)
        requires
            self.wf(),
        ensures
            position is None <==> !self@.contains_key(address@),
            position matches Some(i) ==> i < self.items@.len() && self.items@[i as int].0@
                == address@,
    {
        let mut i: usize = 0;
        while i < self.items.len()
            invariant
                self.wf(),
                i <= self.items@.len(),
                forall|j: int| 0 <= j < i ==> #[trigger] self.items@[j].0@ != address@,
            decreases self.items@.len() - i,
        {
            if self.items[i].0 == *address {
                return Some(i);
            }
            i = i + 1;
        }
        proof {
            if self@.contains_key(address@) {
                let j = choose|j: int| 0 <= j < self.items@.len() && #[trigger] self.items@[j].0@
                    == address@;
                assert(self.items@[j].0@ != address@);
            }
        }
        None
    }

    /// Stores `item` under `address`, replacing any item stored there.
    fn update(&mut self, address: String, item: NotifierItem)
        requires
            old(self).wf(),
        ensures
            final(self).wf(),
            final(self)@ == old(self)@.insert(address@, item),
    {
        let ghost new_contents = self.contents@.insert(address@, item);
        match self.find(&address) {
            Some(i) => {
                self.items.set(i, (address, item));
                self.contents = Ghost(new_contents);
                proof {
                    let items = self.items@;
                    assert forall|a: Seq<char>| #[trigger] new_contents.contains_key(a) implies exists|k: int|
                        0 <= k < items.len() && #[trigger] items[k].0@ == a by {
                        if a != items[i as int].0@ {
                            let k = choose|k: int| 0 <= k < old(self).items@.len()
                                && #[trigger] old(self).items@[k].0@ == a;
                            assert(items[k].0@ == a);
                        }
                    }
                }
            },
            None => {
                self.items.push((address, item));
                self.contents = Ghost(new_contents);
                proof {
                    let items = self.items@;
                    let last = items.len() - 1;
                    assert forall|a: Seq<char>| #[trigger] new_contents.contains_key(a) implies exists|k: int|
                        0 <= k < items.len() && #[trigger] items[k].0@ == a by {
                        if a != items[last].0@ {
                            let k = choose|k: int| 0 <= k < old(self).items@.len()
                                && #[trigger] old(self).items@[k].0@ == a;
                            assert(items[k].0@ == a);
                        }
                    }
                    assert forall|k: int| 0 <= k < last implies #[trigger] items[k].0@ != items[last].0@ by {
                        assert(old(self).contents@.contains_key(old(self).items@[k].0@));
                    }
                }
            },
        }
    }

    /// Forgets the item stored under `address`, if any.
    fn remove(&mut self, address: &String)
        requires
            old(self).wf(),
        ensures
            final(self).wf(),
            final(self)@ == old(self)@.remove(address@),
    {
        let ghost new_contents = self.contents@.remove(address@);
        match self.find(address) {
            Some(i) => {
                let _ = self.items.remove(i);
                self.contents = Ghost(new_contents);
                proof {
                    let items = self.items@;
                    let olds = old(self).items@;
                    assert forall|k: int| 0 <= k < items.len() implies #[trigger] new_contents.contains_key(items[k].0@)
                        && new_contents[items[k].0@] == items[k].1 by {
                        let src = if k < i { k } else { k + 1 };
                        assert(items[k] == olds[src]);
                        assert(olds[src].0@ != olds[i as int].0@);
                        assert(old(self).contents@.contains_key(olds[src].0@));
                    }
                    assert forall|a: Seq<char>| #[trigger] new_contents.contains_key(a) implies exists|k: int|
                        0 <= k < items.len() && #[trigger] items[k].0@ == a by {
                        let k = choose|k: int| 0 <= k < olds.len() && #[trigger] olds[k].0@ == a;
                        assert(k != i);
                        if k < i {
                            assert(items[k].0@ == a);
                        } else {
                            assert(items[k - 1].0@ == a);
                        }
                    }
                    assert forall|p: int, q: int|
                        0 <= p < items.len() && 0 <= q < items.len() && p != q implies #[trigger] items[p].0@
                            != #[trigger] items[q].0@ by {
                        let sp = if p < i { p } else { p + 1 };
                        let sq = if q < i { q } else { q + 1 };
                        assert(items[p] == olds[sp]);
                        assert(items[q] == olds[sq]);
                    }
                }
            },
            None => {
                self.contents = Ghost(new_contents);
                assert(new_contents =~= old(self).contents@);
            },
        }
    }

    /// Applies one message of the tray host.
    fn apply(&mut self, message: NotifierItemMessage)
        requires
            old(self).wf(),
        ensures
            final(self).wf(),
            final(self)@ == apply_message(old(self)@, message),
    {
        match message {
            NotifierItemMessage::Update { address, item, menu } => {
                self.update(address, NotifierItem { item, menu });
            },
            NotifierItemMessage::Remove { address } => {
                self.remove(&address);
            },
        }
    }

    /// The item stored under `address`.
    fn get(&self, address: &String) -> (found: Option<&NotifierItem>)
        requires
            self.wf(),
        ensures
            found is Some <==> self@.contains_key(address@),
            found matches Some(item) ==> *item == self@[address@],
    {
        match self.find(address) {
            Some(i) => Some(&self.items[i].1),
            None => None,
        }
    }

    /// Every stored item with its address, each address once.
    fn entries(&self) -> (entries: &Vec<(String, NotifierItem)>)
        requires
            self.wf(),
        ensures
            entries_match(entries@, self@),
    {
        &self.items
    }
}

/// The tray items currently known, each under its bus address.
pub struct SystrayService {
    entries: TrayEntries,
}

impl View for SystrayService {
    type V = Map<Seq<char>, NotifierItem>;

    closed spec fn view(&self) -> Map<Seq<char>, NotifierItem> {
        self.entries@
    }
}

impl SystrayService {
    /// The stored entries match the tray's contents, one entry per address.
    #[verifier::type_invariant]
    spec fn entries_wf(self) -> bool {
        self.entries.wf()
    }

    /// An empty tray.
    pub fn new() -> (tray: Self)
        ensures
            tray@ == Map::<Seq<char>, NotifierItem>::empty(),
    {
        SystrayService { entries: TrayEntries::new() }
    }

    /// Stores `item` under `address`, replacing any item stored there.
    pub fn update(&mut self, address: String, item: NotifierItem)
        ensures
            final(self)@ == old(self)@.insert(address@, item),
    {
        proof {
            use_type_invariant(&*self);
        }
        let mut entries = TrayEntries::new();
        std::mem::swap(&mut entries, &mut self.entries);
        entries.update(address, item);
        self.entries = entries;
    }

    /// Forgets the item stored under `address`, if any.
    pub fn remove(&mut self, address: &String)
        ensures
            final(self)@ == old(self)@.remove(address@),
    {
        proof {
            use_type_invariant(&*self);
        }
        let mut entries = TrayEntries::new();
        std::mem::swap(&mut entries, &mut self.entries);
        entries.remove(address);
        self.entries = entries;
    }

    /// Applies one message of the tray host.
    pub fn apply(&mut self, message: NotifierItemMessage)
        ensures
            final(self)@ == apply_message(old(self)@, message),
    {
        match message {
            NotifierItemMessage::Update { address, item, menu } => {
                self.update(address, NotifierItem { item, menu });
            },
            NotifierItemMessage::Remove { address } => {
                self.remove(&address);
            },
        }
    }

    /// The item stored under `address`.
    pub fn get(&self, address: &String) -> (found: Option<&NotifierItem>)
        ensures
            found is Some <==> self@.contains_key(address@),
            found matches Some(item) ==> *item == self@[address@],
    {
        proof {
            use_type_invariant(self);
        }
        self.entries.get(address)
    }

    /// Every stored item with its address, each address once.
    pub fn entries(&self) -> (entries: &Vec<(String, NotifierItem)>)
        ensures
            entries_match(entries@, self@),
    {
        proof {
            use_type_invariant(self);
        }
        self.entries.entries()
    }
}

/// How many times the bar tries to register as the tray's host before it
/// gives up.
pub const NOTIFIER_HOST_ATTEMPTS: u32 = 10;

/// Whether to try registering as the tray's host again after `failed`
/// attempts have failed.
pub fn retry_notifier_host(failed: u32) -> (again: bool)
    ensures
        again <==> failed < NOTIFIER_HOST_ATTEMPTS,
{
    failed < NOTIFIER_HOST_ATTEMPTS
}

/// Where the bar takes a tray item's icon from.
#[derive(Debug)]
pub enum IconSource {
    /// The item's pixmaps.
    Pixmaps,
    /// The icon theme, looking up `icon_name` after adding `search_path`
    /// to the theme's search path when there is one.
    Theme { icon_name: Option<String>, search_path: Option<String> },
}

impl NotifierItem {
    /// Where to take the icon from: the pixmaps when the item has any list
    /// of them, otherwise the theme, with the item's icon name and theme
    /// path.
    pub fn icon_source(&self) -> (source: IconSource)
        ensures
            self.item.icon_pixmap is Some <==> source is Pixmaps,
            source matches IconSource::Theme { icon_name, search_path } ==> {
                &&& (icon_name is Some <==> self.item.icon_name is Some)
                &&& icon_name matches Some(n) ==> n@ == self.item.icon_name->0@
                &&& (search_path is Some <==> self.item.icon_theme_path is Some)
                &&& search_path matches Some(p) ==> p@ == self.item.icon_theme_path->0@
            },
    {
        match &self.item.icon_pixmap {
            Some(_) => IconSource::Pixmaps,
            None => {
                let icon_name = match &self.item.icon_name {
                    Some(name) => Some(name.clone()),
                    None => None,
                };
                let search_path = match &self.item.icon_theme_path {
                    Some(p) => Some(p.clone()),
                    None => None,
                };
                IconSource::Theme { icon_name, search_path }
            },
        }
    }
}

/// After an update, the tray gives back the updated item under its
/// address and leaves every other address as it was.
pub proof fn lemma_update_then_lookup(
    state: Map<Seq<char>, NotifierItem>,
    address: String,
    item: StatusNotifierItem,
    menu: Option<TrayMenu>,
    other: Seq<char>,
)
    requires
        other != address@,
    ensures
        ({
            let after = apply_message(state, NotifierItemMessage::Update { address, item, menu });
            &&& after.contains_key(address@)
            &&& after[address@] == (NotifierItem { item, menu })
            &&& after.contains_key(other) == state.contains_key(other)
            &&& state.contains_key(other) ==> after[other] == state[other]
        }),
{
}

/// After a removal, the tray no longer holds the address and leaves every
/// other address as it was.
pub proof fn lemma_remove_then_lookup(
    state: Map<Seq<char>, NotifierItem>,
    address: String,
    other: Seq<char>,
)
    requires
        other != address@,
    ensures
        ({
            let after = apply_message(state, NotifierItemMessage::Remove { address });
            &&& !after.contains_key(address@)
            &&& after.contains_key(other) == state.contains_key(other)
            &&& state.contains_key(other) ==> after[other] == state[other]
        }),
{
}

/// An item that appears and then goes away leaves the tray as it was
/// before it appeared.
pub proof fn lemma_update_then_remove_restores(
    state: Map<Seq<char>, NotifierItem>,
    address: String,
    item: StatusNotifierItem,
    menu: Option<TrayMenu>,
    removed: String,
)
    requires
        !state.contains_key(address@),
        removed@ == address@,
    ensures
        apply_message(
            apply_message(state, NotifierItemMessage::Update { address, item, menu }),
            NotifierItemMessage::Remove { address: removed },
        ) == state,
{
    assert(apply_message(
        apply_message(state, NotifierItemMessage::Update { address, item, menu }),
        NotifierItemMessage::Remove { address: removed },
    ) =~= state);
}

/// Of two updates of one address, the later one is what the tray keeps.
pub proof fn lemma_later_update_wins(
    state: Map<Seq<char>, NotifierItem>,
    first: NotifierItemMessage,
    second: NotifierItemMessage,
)
    requires
        first is Update,
        second is Update,
        first->Update_address@ == second->Update_address@,
    ensures
        apply_message(apply_message(state, first), second) == apply_message(state, second),
{
    assert(apply_message(apply_message(state, first), second) =~= apply_message(state, second));
}

/// Messages about two different addresses can be applied in either order.
pub proof fn lemma_messages_on_distinct_addresses_commute(
    state: Map<Seq<char>, NotifierItem>,
    first: NotifierItemMessage,
    second: NotifierItemMessage,
)
    requires
        message_address(first) != message_address(second),
    ensures
        apply_message(apply_message(state, first), second) == apply_message(
            apply_message(state, second),
            first,
        ),
{
    assert(apply_message(apply_message(state, first), second) =~= apply_message(
        apply_message(state, second),
        first,
    ));
}

/// The address a message is about.
pub open spec fn message_address(message: NotifierItemMessage) -> Seq<char> {
    match message {
        NotifierItemMessage::Update { address, .. } => address@,
        NotifierItemMessage::Remove { address } => address@,
    }
}

} // verus!
