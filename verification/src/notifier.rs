//! The observers of a mirror, and the order to call them.
//!
//! An observer is known by the handle that `subscribe` gave it, and is called
//! once for every change until it hands the handle back. Calling is left to
//! whoever holds the callbacks: `notify` says whom to call.

use vstd::prelude::*;

verus! {

/// The handles of the observers that are registered.
pub struct ChangeNotifier {
    observers: Vec<u64>,
}

/// The handles of `handles` rise from each to the next.
pub open spec fn rising(handles: Seq<u64>) -> bool {
    forall|i: int, j: int| 0 <= i < j < handles.len() ==> handles[i] < handles[j]
}

/// A rising sequence with `handle` put where it belongs holds what it held, and
/// `handle`.
proof fn lemma_insert_to_set(handles: Seq<u64>, slot: int, handle: u64)
    requires
        0 <= slot <= handles.len(),
    ensures
        handles.insert(slot, handle).to_set() == handles.to_set().insert(handle),
{
    let grown = handles.insert(slot, handle);
    handles.insert_ensures(slot, handle);
    assert forall|h: u64| grown.to_set().contains(h) <==> handles.to_set().insert(
        handle,
    ).contains(h) by {
        if grown.to_set().contains(h) {
            let i = choose|i: int| 0 <= i < grown.len() && grown[i] == h;
            if i < slot {
                assert(handles[i] == h);
            } else if i > slot {
                assert(handles[i - 1] == h);
            }
        }
        if handles.to_set().contains(h) {
            let i = choose|i: int| 0 <= i < handles.len() && handles[i] == h;
            if i < slot {
                assert(grown[i] == h);
            } else {
                assert(grown[i + 1] == h);
            }
        }
        if h == handle {
            assert(grown[slot] == h);
        }
    }
    assert(grown.to_set() =~= handles.to_set().insert(handle));
}

/// A rising sequence without one of its handles holds what it held, but for
/// that handle.
proof fn lemma_remove_to_set(handles: Seq<u64>, slot: int)
    requires
        rising(handles),
        0 <= slot < handles.len(),
    ensures
        handles.remove(slot).to_set() == handles.to_set().remove(handles[slot]),
        rising(handles.remove(slot)),
{
    let less = handles.remove(slot);
    let gone = handles[slot];
    assert forall|h: u64| less.to_set().contains(h) <==> handles.to_set().remove(gone).contains(
        h,
    ) by {
        if less.to_set().contains(h) {
            let i = choose|i: int| 0 <= i < less.len() && less[i] == h;
            if i < slot {
                assert(handles[i] == h);
            } else {
                assert(handles[i + 1] == h);
            }
        }
        if handles.to_set().remove(gone).contains(h) {
            let i = choose|i: int| 0 <= i < handles.len() && handles[i] == h;
            if i < slot {
                assert(less[i] == h);
            } else {
                assert(less[i - 1] == h);
            }
        }
    }
    assert(less.to_set() =~= handles.to_set().remove(gone));
}

impl View for ChangeNotifier {
    type V = Set<u64>;

    closed spec fn view(&self) -> Set<u64> {
        self.observers@.to_set()
    }
}

impl ChangeNotifier {
    #[verifier::type_invariant]
    spec fn kept(&self) -> bool {
        rising(self.observers@)
    }

    /// No observers.
    pub fn new() -> (notifier: ChangeNotifier)
        ensures
            notifier@ == Set::<u64>::empty(),
    {
        let observers: Vec<u64> = Vec::new();
        assert(observers@.to_set() =~= Set::empty());
        ChangeNotifier { observers }
    }

    /// The number of observers.
    pub fn len(&self) -> (n: usize)
        ensures
            n == self@.len(),
            self@.finite(),
    {
        proof {
            use_type_invariant(self);
            assert(self.observers@.no_duplicates());
            self.observers@.unique_seq_to_set();
        }
        self.observers.len()
    }

    /// Registers an observer and gives it a handle that no registered observer
    /// has: the least that is free.
    pub fn subscribe(&mut self) -> (handle: u64)
        ensures
            !old(self)@.contains(handle),
            forall|lower: u64| lower < handle ==> old(self)@.contains(lower),
            final(self)@ == old(self)@.insert(handle),
    {
        proof {
            use_type_invariant(&*self);
        }
        let mut slot: usize = 0;
        while slot < self.observers.len() && self.observers[slot] == slot as u64
            invariant
                slot <= self.observers.len(),
                *self == *old(self),
                rising(self.observers@),
                forall|i: int| 0 <= i < slot ==> self.observers@[i] == i,
            decreases self.observers.len() - slot,
        {
            slot += 1;
        }
        let handle = slot as u64;
        proof {
            let handles = self.observers@;
            assert forall|i: int| slot <= i < handles.len() implies handles[i] > handle by {
                if slot > 0 {
                    assert(handles[slot as int - 1] < handles[slot as int]);
                }
                if i > slot {
                    assert(handles[slot as int] < handles[i]);
                }
            }
            assert(!handles.to_set().contains(handle)) by {
                if handles.to_set().contains(handle) {
                    let i = choose|i: int| 0 <= i < handles.len() && handles[i] == handle;
                    assert(false);
                }
            }
            assert forall|lower: u64| lower < handle implies handles.to_set().contains(lower) by {
                assert(handles[lower as int] == lower);
            }
            lemma_insert_to_set(handles, slot as int, handle);
            let grown = handles.insert(slot as int, handle);
            handles.insert_ensures(slot as int, handle);
            assert forall|i: int, j: int| 0 <= i < j < grown.len() implies grown[i] < grown[j] by {
                if i < slot {
                    assert(grown[i] == handles[i]);
                } else if i > slot {
                    assert(grown[i] == handles[i - 1]);
                }
                if j < slot {
                    assert(grown[j] == handles[j]);
                } else if j > slot {
                    assert(grown[j] == handles[j - 1]);
                }
            }
        }
        let mut observers = self.observers.clone();
        assert(observers@ =~= self.observers@);
        observers.insert(slot, handle);
        self.observers = observers;
        handle
    }

    /// Takes the observer with `handle` off the register. The result says
    /// whether it was on it.
    pub fn unsubscribe(&mut self, handle: u64) -> (was_registered: bool)
        ensures
            was_registered == old(self)@.contains(handle),
            final(self)@ == old(self)@.remove(handle),
    {
        proof {
            use_type_invariant(&*self);
        }
        let mut slot: usize = 0;
        while slot < self.observers.len() && self.observers[slot] != handle
            invariant
                slot <= self.observers.len(),
                *self == *old(self),
                forall|i: int| 0 <= i < slot ==> self.observers@[i] != handle,
            decreases self.observers.len() - slot,
        {
            slot += 1;
        }
        if slot < self.observers.len() {
            proof {
                lemma_remove_to_set(self.observers@, slot as int);
                assert(self.observers@.to_set().contains(self.observers@[slot as int]));
            }
            let mut observers = self.observers.clone();
            assert(observers@ =~= self.observers@);
            observers.remove(slot);
            self.observers = observers;
            true
        } else {
            assert(!self.observers@.to_set().contains(handle)) by {
                if self.observers@.to_set().contains(handle) {
                    let i = choose|i: int|
                        0 <= i < self.observers@.len() && self.observers@[i] == handle;
                    assert(false);
                }
            }
            assert(self@.remove(handle) =~= self@);
            false
        }
    }

    /// The observers to call for one change: each registered observer, once.
    pub fn notify(&self) -> (calls: Vec<u64>)
        ensures
            calls@.no_duplicates(),
            calls@.to_set() == self@,
    {
        proof {
            use_type_invariant(self);
        }
        let calls = self.observers.clone();
        assert(calls@ =~= self.observers@);
        calls
    }
}

} // verus!
