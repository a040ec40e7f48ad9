//! The registry of WebView subscribers that the plugin pushes GUI state to.
//! Each subscriber listens to one kind of stream and gets an id of its own,
//! numbered from 1, so that one subscriber can leave without taking another
//! with it.
use vstd::prelude::*;

verus! {

/// Which stream a subscriber listens to.
#[derive(Debug, Clone, Copy, PartialEq, Eq, Structural)]
pub enum GuiSubscriptionKind {
    Parameters,
    EditorPage,
}

/// The id handed to a subscriber, independent of the transport's own ids.
#[derive(Debug, Clone, Copy, PartialEq, Eq, Structural)]
pub struct GuiSubscriptionId(pub u64);

impl GuiSubscriptionId {
    /// The raw number.
    pub fn get(self) -> (r: u64)
        ensures
            r == self.0,
    {
        self.0
    }

    /// The id with the given raw number.
    pub fn from_raw(value: u64) -> (r: Self)
        ensures
            r.0 == value,
    {
        GuiSubscriptionId(value)
    }
}

/// One registered subscriber: its id, its stream and where to send.
pub struct GuiSubscription<C> {
    pub id: u64,
    pub kind: GuiSubscriptionKind,
    pub channel: C,
}

/// The registered subscribers, in the order they subscribed.
pub struct GuiStateNotifier<C> {
    next_subscription_id: u64,
    subscriptions: Vec<GuiSubscription<C>>,
}

/// The ids of the entries of one kind, in order.
pub open spec fn ids_of_kind(entries: Seq<(u64, GuiSubscriptionKind)>, kind: GuiSubscriptionKind) -> Seq<
    u64,
>
    decreases entries.len(),
{
    if entries.len() == 0 {
        Seq::empty()
    } else if entries.last().1 == kind {
        ids_of_kind(entries.drop_last(), kind).push(entries.last().0)
    } else {
        ids_of_kind(entries.drop_last(), kind)
    }
}

/// A notification of one kind reaches exactly the subscribers registered for
/// that kind: an id is among the recipients if and only if it was registered
/// with that kind.
pub proof fn lemma_recipients_are_those_of_kind(
    entries: Seq<(u64, GuiSubscriptionKind)>,
    kind: GuiSubscriptionKind,
    id: u64,
)
    ensures
        ids_of_kind(entries, kind).contains(id) <==> exists|k: int|
            0 <= k < entries.len() && entries[k] == (id, kind),
    decreases entries.len(),
{
    if entries.len() > 0 {
        let prefix = entries.drop_last();
        lemma_recipients_are_those_of_kind(prefix, kind, id);
        if exists|k: int| 0 <= k < prefix.len() && prefix[k] == (id, kind) {
            let k = choose|k: int| 0 <= k < prefix.len() && prefix[k] == (id, kind);
            assert(entries[k] == prefix[k]);
        }
        if exists|k: int| 0 <= k < entries.len() && entries[k] == (id, kind) {
            let k = choose|k: int| 0 <= k < entries.len() && entries[k] == (id, kind);
            if k < prefix.len() {
                assert(prefix[k] == entries[k]);
            }
        }
        if entries.last().1 == kind {
            let base = ids_of_kind(prefix, kind);
            assert(base.push(entries.last().0).contains(id) <==> (base.contains(id)
                || entries.last().0 == id)) by {
                if base.push(entries.last().0).contains(id) {
                    let j = choose|j: int| 0 <= j < base.len() + 1 && base.push(entries.last().0)[j] == id;
                    if j < base.len() {
                        assert(base[j] == id);
                    }
                }
                if base.contains(id) {
                    let j = choose|j: int| 0 <= j < base.len() && base[j] == id;
                    assert(base.push(entries.last().0)[j] == id);
                }
                if entries.last().0 == id {
                    assert(base.push(entries.last().0)[base.len() as int] == id);
                }
            }
        }
    }
}

impl<C> GuiStateNotifier<C> {
    /// The registered subscribers as (id, kind) pairs, in subscription order.
    pub closed spec fn entries(&self) -> Seq<(u64, GuiSubscriptionKind)> {
        self.subscriptions@.map_values(|s: GuiSubscription<C>| (s.id, s.kind))
    }

    /// The channels of the registered subscribers, in the order of
    /// `entries()`.
    pub closed spec fn channels(&self) -> Seq<C> {
        self.subscriptions@.map_values(|s: GuiSubscription<C>| s.channel)
    }

    /// The id the next subscriber will get.
    pub closed spec fn next_id(&self) -> u64 {
        self.next_subscription_id
    }

    /// Every id is below the next one and at least 1, and no id is
    /// registered twice.
    pub open spec fn wf(&self) -> bool {
        &&& 1 <= self.next_id()
        &&& forall|i: int|
            0 <= i < self.entries().len() ==> 1 <= (#[trigger] self.entries()[i]).0 < self.next_id()
        &&& forall|i: int, j: int|
            0 <= i < j < self.entries().len() ==> (#[trigger] self.entries()[i]).0 != (
            #[trigger] self.entries()[j]).0
    }

    /// An empty registry whose first id is 1.
    pub fn new() -> (r: Self)
        ensures
            r.wf(),
            r.entries().len() == 0,
            r.channels().len() == 0,
            r.next_id() == 1,
    {
        let r = GuiStateNotifier { next_subscription_id: 1, subscriptions: Vec::new() };
        assert(r.entries() =~= Seq::empty());
        assert(r.channels() =~= Seq::empty());
        r
    }

    /// Registers a subscriber to the parameter stream.
    pub fn subscribe_parameters(&mut self, channel: C) -> (id: GuiSubscriptionId)
        requires
            old(self).wf(),
            old(self).next_id() < u64::MAX,
        ensures
            final(self).wf(),
            id.0 == old(self).next_id(),
            final(self).next_id() == old(self).next_id() + 1,
            final(self).entries() == old(self).entries().push(
                (id.0, GuiSubscriptionKind::Parameters),
            ),
            final(self).channels() == old(self).channels().push(channel),
    {
        self.subscribe(GuiSubscriptionKind::Parameters, channel)
    }

    /// Registers a subscriber to the editor-page stream.
    pub fn subscribe_editor_page(&mut self, channel: C) -> (id: GuiSubscriptionId)
        requires
            old(self).wf(),
            old(self).next_id() < u64::MAX,
        ensures
            final(self).wf(),
            id.0 == old(self).next_id(),
            final(self).next_id() == old(self).next_id() + 1,
            final(self).entries() == old(self).entries().push(
                (id.0, GuiSubscriptionKind::EditorPage),
            ),
            final(self).channels() == old(self).channels().push(channel),
    {
        self.subscribe(GuiSubscriptionKind::EditorPage, channel)
    }

    /// Registers a subscriber under the next id.
    fn subscribe(&mut self, kind: GuiSubscriptionKind, channel: C) -> (id: GuiSubscriptionId)
        requires
            old(self).wf(),
            old(self).next_id() < u64::MAX,
        ensures
            final(self).wf(),
            id.0 == old(self).next_id(),
            final(self).next_id() == old(self).next_id() + 1,
            final(self).entries() == old(self).entries().push((id.0, kind)),
            final(self).channels() == old(self).channels().push(channel),
    {
        let id = self.next_subscription_id;
        self.next_subscription_id = id + 1;
        self.subscriptions.push(GuiSubscription { id, kind, channel });
        assert(self.entries() =~= old(self).entries().push((id, kind)));
        assert(self.channels() =~= old(self).channels().push(channel));
        GuiSubscriptionId(id)
    }

    /// Removes the subscriber with this id, if it is registered; the others
    /// stay, in their order.
    pub fn unsubscribe(&mut self, id: GuiSubscriptionId)
        requires
            old(self).wf(),
        ensures
            final(self).wf(),
            final(self).next_id() == old(self).next_id(),
            (exists|k: int| 0 <= k < old(self).entries().len() && old(self).entries()[k].0 == id.0)
                ==> exists|k: int|
                0 <= k < old(self).entries().len() && old(self).entries()[k].0 == id.0
                    && final(self).entries() == old(self).entries().remove(k)
                    && final(self).channels() == old(self).channels().remove(k),
            (forall|k: int|
                0 <= k < old(self).entries().len() ==> old(self).entries()[k].0 != id.0)
                ==> final(self).entries() == old(self).entries() && final(self).channels() == old(
                self,
            ).channels(),
    {
        let mut i: usize = 0;
        while i < self.subscriptions.len()
            invariant
                i <= self.subscriptions.len(),
                *self == *old(self),
                old(self).wf(),
                forall|k: int| 0 <= k < i ==> self.entries()[k].0 != id.0,
            decreases self.subscriptions.len() - i,
        {
            assert(self.entries()[i as int].0 == self.subscriptions@[i as int].id);
            if self.subscriptions[i].id == id.0 {
                self.subscriptions.remove(i);
                assert(self.entries() =~= old(self).entries().remove(i as int));
                assert(self.channels() =~= old(self).channels().remove(i as int));
                assert forall|a: int, b: int|
                    0 <= a < b < self.entries().len() implies (#[trigger] self.entries()[a]).0 != (
                    #[trigger] self.entries()[b]).0 by {
                    let a0 = if a < i { a } else { a + 1 };
                    let b0 = if b < i { b } else { b + 1 };
                    assert(self.entries()[a] == old(self).entries()[a0]);
                    assert(self.entries()[b] == old(self).entries()[b0]);
                }
                assert forall|a: int| 0 <= a < self.entries().len() implies 1 <= (
                #[trigger] self.entries()[a]).0 < self.next_id() by {
                    let a0 = if a < i { a } else { a + 1 };
                    assert(self.entries()[a] == old(self).entries()[a0]);
                }
                return;
            }
            i += 1;
        }
    }

    /// Removes every subscriber; ids keep counting from where they were.
    pub fn clear_subscriptions(&mut self)
        requires
            old(self).wf(),
        ensures
            final(self).wf(),
            final(self).next_id() == old(self).next_id(),
            final(self).entries().len() == 0,
            final(self).channels().len() == 0,
    {
        self.subscriptions.clear();
        assert(self.entries() =~= Seq::empty());
        assert(self.channels() =~= Seq::empty());
    }

    /// The ids of the subscribers of one kind, in subscription order: those
    /// that a notification of that kind is delivered to.
    pub fn recipients(&self, kind: GuiSubscriptionKind) -> (r: Vec<u64>)
        ensures
            r@ == ids_of_kind(self.entries(), kind),
    {
        let mut r: Vec<u64> = Vec::new();
        let mut i: usize = 0;
        while i < self.subscriptions.len()
            invariant
                i <= self.subscriptions.len(),
                r@ == ids_of_kind(self.entries().take(i as int), kind),
            decreases self.subscriptions.len() - i,
        {
            let ghost next = self.entries().take(i + 1);
            assert(next.drop_last() =~= self.entries().take(i as int));
            assert(next.last() == (self.subscriptions@[i as int].id, self.subscriptions@[i as int].kind));
            if self.subscriptions[i].kind == kind {
                r.push(self.subscriptions[i].id);
            }
            i += 1;
        }
        assert(self.entries().take(i as int) =~= self.entries());
        r
    }

    /// The channel of the subscriber with this id, if it is registered.
    pub fn channel(&self, id: GuiSubscriptionId) -> (r: Option<&C>)
        requires
            self.wf(),
        ensures
            r is Some <==> exists|k: int| 0 <= k < self.entries().len() && self.entries()[k].0 == id.0,
            forall|k: int|
                0 <= k < self.entries().len() && (#[trigger] self.entries()[k]).0 == id.0 ==> (r matches Some(
                    c,
                ) && *c == self.channels()[k]),
    {
        let mut i: usize = 0;
        while i < self.subscriptions.len()
            invariant
                i <= self.subscriptions.len(),
                self.wf(),
                forall|k: int| 0 <= k < i ==> self.entries()[k].0 != id.0,
            decreases self.subscriptions.len() - i,
        {
            assert(self.entries()[i as int].0 == self.subscriptions@[i as int].id);
            if self.subscriptions[i].id == id.0 {
                assert(self.channels()[i as int] == self.subscriptions@[i as int].channel);
                return Some(&self.subscriptions[i].channel);
            }
            i += 1;
        }
        None
    }
}

} // verus!
