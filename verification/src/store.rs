//! A mirror together with its observers.
//!
//! Every event that is applied is announced, once, to every observer that is
//! registered at that moment. The store counts both, what it applied and what
//! it announced, so that the two can be held against each other.

use crate::event::{EventView, NormalizedEvent};
use crate::i3::groups_in_order;
use crate::mirror::{Mirror, MirrorView, Snapshot};
use crate::notifier::ChangeNotifier;
use vstd::prelude::*;

verus! {

/// A mirror, its observers, and the counts of what was applied and announced.
pub struct Store {
    mirror: Mirror,
    notifier: ChangeNotifier,
    applied: Ghost<nat>,
    notified: Ghost<nat>,
}

/// A store as a value.
pub struct StoreView {
    pub mirror: MirrorView,
    /// The handles of the registered observers.
    pub observers: Set<u64>,
    /// How many events were applied.
    pub applied: nat,
    /// How many times the observers were called up.
    pub notified: nat,
}

impl StoreView {
    /// The store before any event, with no observer.
    pub open spec fn empty() -> StoreView {
        StoreView { mirror: MirrorView::empty(), observers: Set::empty(), applied: 0, notified: 0 }
    }

    /// The store after `event`: the mirror has applied it, and the observers
    /// were called up once.
    pub open spec fn apply(self, event: EventView) -> StoreView {
        StoreView {
            mirror: self.mirror.apply(event),
            applied: self.applied + 1,
            notified: self.notified + 1,
            ..self
        }
    }

    /// The store after all of `events`, in their order.
    pub open spec fn apply_all(self, events: Seq<EventView>) -> StoreView
        decreases events.len(),
    {
        if events.len() == 0 {
            self
        } else {
            self.apply_all(events.drop_last()).apply(events.last())
        }
    }

    /// The store with `observers` registered.
    pub open spec fn observed_by(self, observers: Set<u64>) -> StoreView {
        StoreView { observers, ..self }
    }
}

/// However many observers there are, none, one or many, the observers are
/// called up exactly once for each event that is applied.
pub proof fn lemma_one_notification_per_event(
    store: StoreView,
    observers: Set<u64>,
    events: Seq<EventView>,
)
    ensures
        store.observed_by(observers).apply_all(events).notified == store.notified + events.len(),
        store.observed_by(observers).apply_all(events).applied == store.applied + events.len(),
        store.observed_by(observers).apply_all(events).observers == observers,
        store.observed_by(observers).apply_all(events).mirror == store.mirror.apply_all(events),
    decreases events.len(),
{
    if events.len() > 0 {
        lemma_one_notification_per_event(store, observers, events.drop_last());
    }
}

/// A store that starts empty has announced as often as it has applied.
pub proof fn lemma_notified_is_applied(observers: Set<u64>, events: Seq<EventView>)
    ensures
        StoreView::empty().observed_by(observers).apply_all(events).notified == events.len(),
        StoreView::empty().observed_by(observers).apply_all(events).applied == events.len(),
{
    lemma_one_notification_per_event(StoreView::empty(), observers, events);
}

impl View for Store {
    type V = StoreView;

    closed spec fn view(&self) -> StoreView {
        StoreView {
            mirror: self.mirror@,
            observers: self.notifier@,
            applied: self.applied@,
            notified: self.notified@,
        }
    }
}

impl Store {
    /// A store that has seen no event and has no observer.
    pub fn new() -> (store: Store)
        ensures
            store@ == StoreView::empty(),
    {
        Store {
            mirror: Mirror::new(),
            notifier: ChangeNotifier::new(),
            applied: Ghost(0),
            notified: Ghost(0),
        }
    }

    /// Registers an observer and gives it the least handle that is free.
    pub fn subscribe(&mut self) -> (handle: u64)
        ensures
            !old(self)@.observers.contains(handle),
            forall|lower: u64| lower < handle ==> old(self)@.observers.contains(lower),
            final(self)@ == old(self)@.observed_by(old(self)@.observers.insert(handle)),
    {
        self.notifier.subscribe()
    }

    /// Takes the observer with `handle` off the register. The result says
    /// whether it was on it.
    pub fn unsubscribe(&mut self, handle: u64) -> (was_registered: bool)
        ensures
            was_registered == old(self)@.observers.contains(handle),
            final(self)@ == old(self)@.observed_by(old(self)@.observers.remove(handle)),
    {
        self.notifier.unsubscribe(handle)
    }

    /// Applies `event` to the mirror and says whom to call for it: each
    /// registered observer, once. The observers are called up for every event,
    /// also for one that brings what the mirror has.
    pub fn apply(&mut self, event: NormalizedEvent) -> (calls: Vec<u64>)
        ensures
            final(self)@ == old(self)@.apply(event@),
            calls@.no_duplicates(),
            calls@.to_set() == old(self)@.observers,
            groups_in_order(final(self)@.mirror.workspaces),
    {
        self.mirror.apply(event);
        self.applied = Ghost((self.applied@ + 1) as nat);
        self.notified = Ghost((self.notified@ + 1) as nat);
        self.notifier.notify()
    }

    /// The mirror.
    pub fn mirror(&self) -> (mirror: &Mirror)
        ensures
            mirror@ == self@.mirror,
    {
        &self.mirror
    }

    /// A copy of the mirrored state as it stands.
    pub fn snapshot(&self) -> (copy: Snapshot)
        ensures
            copy@ == self@.mirror,
            groups_in_order(copy@.workspaces),
    {
        self.mirror.snapshot()
    }

    /// The number of observers.
    pub fn observers(&self) -> (n: usize)
        ensures
            n == self@.observers.len(),
            self@.observers.finite(),
    {
        self.notifier.len()
    }
}

} // verus!
