use vstd::prelude::*;
use crate::hyprland::HyprlandService;
use crate::tray::{NotifierItem, SystrayService};

verus! {

/// The state the bar's services keep: the compositor service's
/// subscribers and the tray's items.
pub struct Services<L> {
    pub hyprland: HyprlandService<L>,
    pub systray: SystrayService,
}

impl<L> Services<L> {
    /// Services with no subscribers and an empty tray.
    pub fn new() -> (services: Self)
        ensures
            services.hyprland.listeners@ == Seq::<L>::empty(),
            services.systray@ == Map::<Seq<char>, NotifierItem>::empty(),
    {
        Services { hyprland: HyprlandService::new(), systray: SystrayService::new() }
    }
}

/// The media players already followed, by their unique bus name.
pub struct TrackedPlayers {
    names: Vec<String>,
}

impl View for TrackedPlayers {
    type V = Set<Seq<char>>;

    closed spec fn view(&self) -> Set<Seq<char>> {
        self.names@.map_values(|n: String| n@).to_set()
    }
}

impl TrackedPlayers {
    /// No player followed yet.
    pub fn new() -> (players: Self)
        ensures
            players@ == Set::<Seq<char>>::empty(),
    {
        let players = TrackedPlayers { names: Vec::new() };
        assert(players@ =~= Set::<Seq<char>>::empty());
        players
    }

    /// Whether the player with this unique name is followed.
    pub fn contains(&self, unique_name: &String) -> (found: bool)
        ensures
            found <==> self@.contains(unique_name@),
    {
        let mut i: usize = 0;
        while i < self.names.len()
            invariant
                i <= self.names@.len(),
                forall|j: int| 0 <= j < i ==> #[trigger] self.names@[j]@ != unique_name@,
            decreases self.names@.len() - i,
        {
            if self.names[i] == *unique_name {
                assert(self.names@.map_values(|n: String| n@)[i as int] == unique_name@);
                return true;
            }
            i = i + 1;
        }
        proof {
            if self@.contains(unique_name@) {
                let views = self.names@.map_values(|n: String| n@);
                let j = choose|j: int| 0 <= j < views.len() && views[j] == unique_name@;
                assert(self.names@[j]@ == unique_name@);
            }
        }
        false
    }

    /// Follows a player found on the bus; returns whether it is new, that
    /// is, whether its events must now be forwarded.
    pub fn track(&mut self, unique_name: String) -> (is_new: bool)
        ensures
            is_new <==> !old(self)@.contains(unique_name@),
            final(self)@ == old(self)@.insert(unique_name@),
    {
        if self.contains(&unique_name) {
            assert(self@.insert(unique_name@) =~= self@);
            false
        } else {
            let ghost before = self.names@;
            let ghost name = unique_name@;
            self.names.push(unique_name);
            proof {
                let views = self.names@.map_values(|n: String| n@);
                let old_views = before.map_values(|n: String| n@);
                assert(views =~= old_views.push(name));
                assert(views.to_set() =~= old_views.to_set().insert(name)) by {
                    assert forall|x: Seq<char>| views.to_set().contains(x) <==> old_views.to_set().insert(name).contains(x) by {
                        if views.contains(x) {
                            let k = choose|k: int| 0 <= k < views.len() && views[k] == x;
                            if k < old_views.len() {
                                assert(old_views[k] == x);
                            }
                        }
                        if old_views.contains(x) {
                            let k = choose|k: int| 0 <= k < old_views.len() && old_views[k] == x;
                            assert(views[k] == x);
                        }
                        if x == name {
                            assert(views[views.len() - 1] == x);
                        }
                    }
                }
            }
            true
        }
    }
}

} // verus!
