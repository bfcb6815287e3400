use vstd::prelude::*;

verus! {

/// The listeners of the first `n` positions that the last event reached,
/// in their order.
pub open spec fn kept_prefix<L>(listeners: Seq<L>, delivered: Seq<bool>, n: int) -> Seq<L>
    decreases n,
{
    if n <= 0 {
        Seq::empty()
    } else if delivered[n - 1] {
        kept_prefix(listeners, delivered, n - 1).push(listeners[n - 1])
    } else {
        kept_prefix(listeners, delivered, n - 1)
    }
}

/// The listeners that the last event reached, in their order.
pub open spec fn kept<L>(listeners: Seq<L>, delivered: Seq<bool>) -> Seq<L> {
    kept_prefix(listeners, delivered, listeners.len() as int)
}

/// The subscribers of a service, in the order in which they registered.
/// Every event goes to each of them, and one that can no longer be reached
/// is dropped.
pub struct ListenerList<L> {
    listeners: Vec<L>,
}

impl<L> View for ListenerList<L> {
    type V = Seq<L>;

    closed spec fn view(&self) -> Seq<L> {
        self.listeners@
    }
}

impl<L> ListenerList<L> {
    /// No subscribers yet.
    pub fn new() -> (list: Self)
        ensures
            list@ == Seq::<L>::empty(),
    {
        ListenerList { listeners: Vec::new() }
    }

    /// Adds a subscriber after the present ones.
    pub fn register(&mut self, listener: L)
        ensures
            final(self)@ == old(self)@.push(listener),
    {
        self.listeners.push(listener);
    }

    /// The subscribers, in the order in which they registered.
    pub fn listeners(&self) -> (listeners: &Vec<L>)
        ensures
            listeners@ == self@,
    {
        &self.listeners
    }

    /// After an event went out, keeps the subscribers it reached:
    /// `delivered[i]` tells whether the event reached the `i`-th one.
    pub fn retain_delivered(&mut self, delivered: &Vec<bool>)
        requires
            delivered@.len() == old(self)@.len(),
        ensures
            final(self)@ == kept(old(self)@, delivered@),
    {
        let mut pending: Vec<L> = Vec::new();
        std::mem::swap(&mut pending, &mut self.listeners);
        let ghost all = pending@;
        let count = pending.len();
        let mut reached: Vec<L> = Vec::new();
        let mut i: usize = 0;
        for listener in it: pending
            invariant
                it.seq() == all,
                i == it.index(),
                i <= all.len(),
                all.len() == count,
                all.len() == delivered@.len(),
                reached@ == kept_prefix(all, delivered@, i as int),
        {
            assert(listener == all[i as int]);
            if delivered[i] {
                reached.push(listener);
            }
            i = i + 1;
        }
        self.listeners = reached;
    }
}

/// When every subscriber was reached, all of them stay, in their order.
pub proof fn lemma_all_delivered_keeps_all<L>(listeners: Seq<L>, delivered: Seq<bool>)
    requires
        delivered.len() == listeners.len(),
        forall|i: int| 0 <= i < delivered.len() ==> #[trigger] delivered[i],
    ensures
        kept(listeners, delivered) == listeners,
{
    lemma_kept_prefix_all(listeners, delivered, listeners.len() as int);
    assert(listeners.subrange(0, listeners.len() as int) =~= listeners);
}

proof fn lemma_kept_prefix_all<L>(listeners: Seq<L>, delivered: Seq<bool>, n: int)
    requires
        0 <= n <= listeners.len(),
        delivered.len() == listeners.len(),
        forall|i: int| 0 <= i < delivered.len() ==> #[trigger] delivered[i],
    ensures
        kept_prefix(listeners, delivered, n) == listeners.subrange(0, n),
    decreases n,
{
    if n > 0 {
        lemma_kept_prefix_all(listeners, delivered, n - 1);
        assert(listeners.subrange(0, n - 1).push(listeners[n - 1]) =~= listeners.subrange(0, n));
    } else {
        assert(listeners.subrange(0, 0) =~= Seq::<L>::empty());
    }
}

/// The positions below `n` that the last event reached, in increasing order.
pub open spec fn reached_positions(delivered: Seq<bool>, n: int) -> Seq<int>
    decreases n,
{
    if n <= 0 {
        Seq::empty()
    } else if delivered[n - 1] {
        reached_positions(delivered, n - 1).push(n - 1)
    } else {
        reached_positions(delivered, n - 1)
    }
}

/// The subscribers that stay after an event are exactly those it reached,
/// in their order: the `k`-th one kept is the one at the `k`-th reached
/// position; every reached position is among them, and no other.
pub proof fn lemma_kept_are_exactly_the_reached<L>(listeners: Seq<L>, delivered: Seq<bool>, n: int)
    requires
        0 <= n <= listeners.len(),
        delivered.len() == listeners.len(),
    ensures
        ({
            let positions = reached_positions(delivered, n);
            let stay = kept_prefix(listeners, delivered, n);
            &&& stay.len() == positions.len()
            &&& forall|k: int|
                0 <= k < positions.len() ==> 0 <= #[trigger] positions[k] < n
                    && delivered[positions[k]] && stay[k] == listeners[positions[k]]
            &&& forall|k: int, l: int|
                0 <= k < l < positions.len() ==> #[trigger] positions[k] < #[trigger] positions[l]
            &&& forall|j: int| 0 <= j < n && #[trigger] delivered[j] ==> positions.contains(j)
        }),
    decreases n,
{
    if n > 0 {
        lemma_kept_are_exactly_the_reached(listeners, delivered, n - 1);
        let before = reached_positions(delivered, n - 1);
        let positions = reached_positions(delivered, n);
        assert forall|j: int| 0 <= j < n && #[trigger] delivered[j] implies positions.contains(j) by {
            if j < n - 1 {
                let k = choose|k: int| 0 <= k < before.len() && before[k] == j;
                assert(positions[k] == j);
            } else {
                assert(positions[positions.len() - 1] == j);
            }
        }
    }
}

/// When no subscriber was reached, none stays.
pub proof fn lemma_none_delivered_drops_all<L>(listeners: Seq<L>, delivered: Seq<bool>)
    requires
        delivered.len() == listeners.len(),
        forall|i: int| 0 <= i < delivered.len() ==> !#[trigger] delivered[i],
    ensures
        kept(listeners, delivered) == Seq::<L>::empty(),
{
    lemma_kept_prefix_none(listeners, delivered, listeners.len() as int);
}

proof fn lemma_kept_prefix_none<L>(listeners: Seq<L>, delivered: Seq<bool>, n: int)
    requires
        0 <= n <= listeners.len(),
        delivered.len() == listeners.len(),
        forall|i: int| 0 <= i < delivered.len() ==> !#[trigger] delivered[i],
    ensures
        kept_prefix(listeners, delivered, n) == Seq::<L>::empty(),
    decreases n,
{
    if n > 0 {
        lemma_kept_prefix_none(listeners, delivered, n - 1);
    }
}

} // verus!
