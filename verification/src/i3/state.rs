//! The session with the window manager.
//!
//! The window manager says only that something about the workspaces has
//! changed, never what. So every such notice is answered by asking for the
//! whole listing again. Notices may come faster than listings: at most one
//! request for a listing is under way, and all the notices that come while it
//! is are answered by one more request, made when the listing has arrived.

use crate::command::{switch_words, switch_workspace, Request, RequestView};
use crate::event::{EventView, NormalizedEvent, Payload, PayloadView};
use crate::i3::{
    get_workspaces, groups_in_order, is_grouping, views, WorkspaceState, WorkspaceView, Workspaces,
};
use crate::mirror::Snapshot;
use crate::store::{Store, StoreView};
use crate::text::signed_decimal;
use vstd::prelude::*;

verus! {

/// The classes of notice that the window manager sends.
#[derive(Clone, Copy, Debug, PartialEq, Eq, Structural)]
pub enum EventClass {
    Workspace,
    Output,
    Mode,
    Window,
    BarConfig,
    Binding,
    Shutdown,
}

/// The session with the window manager: the mirror of its workspaces, the
/// observers of that mirror, and what is under way between the two.
pub struct I3State {
    store: Store,
    fetching: bool,
    again: bool,
}

/// The session as a value.
pub struct I3View {
    pub store: StoreView,
    /// A request for the listing is under way.
    pub fetching: bool,
    /// A notice came after that request was made: the listing has to be asked
    /// for once more.
    pub again: bool,
}

/// What the arrival of a listing leads to.
pub struct Delivery {
    /// The observers to call, each once.
    pub calls: Vec<u64>,
    /// The next request for a listing, where one is due.
    pub request: Option<Request>,
}

impl I3View {
    /// The session before anything has happened.
    pub open spec fn empty() -> I3View {
        I3View { store: StoreView::empty(), fetching: false, again: false }
    }

    /// Whether a notice of `class` is answered by a request for the listing:
    /// only one about workspaces is, and only while no request is under way.
    pub open spec fn asks_on_event(self, class: EventClass) -> bool {
        class == EventClass::Workspace && !self.fetching
    }

    /// The session after a notice of `class`.
    pub open spec fn on_event(self, class: EventClass) -> I3View {
        if class != EventClass::Workspace {
            self
        } else if self.fetching {
            I3View { again: true, ..self }
        } else {
            I3View { fetching: true, ..self }
        }
    }

    /// Whether the arrival of a listing is answered by the next request.
    pub open spec fn asks_on_workspaces(self) -> bool {
        self.again
    }

    /// The session after the arrival of a listing that groups to `groups`.
    pub open spec fn on_workspaces(self, groups: Seq<Seq<WorkspaceView>>) -> I3View {
        I3View {
            store: self.store.apply(
                EventView::Reset { payload: PayloadView::Workspaces(groups) },
            ),
            fetching: self.again,
            again: false,
        }
    }

    /// The session after `n` notices about workspaces.
    pub open spec fn after_burst(self, n: nat) -> I3View
        decreases n,
    {
        if n == 0 {
            self
        } else {
            self.after_burst((n - 1) as nat).on_event(EventClass::Workspace)
        }
    }

    /// How many of `n` notices about workspaces are answered by a request.
    pub open spec fn asked_in_burst(self, n: nat) -> nat
        decreases n,
    {
        if n == 0 {
            0
        } else {
            let before = self.after_burst((n - 1) as nat);
            self.asked_in_burst((n - 1) as nat) + if before.asks_on_event(EventClass::Workspace) {
                1nat
            } else {
                0nat
            }
        }
    }
}

/// While a request for the listing is under way, no notice is answered by a
/// request, however many come. When the listing arrives, exactly one more
/// request is made if any notice came, and none if none did; after it, again
/// one request at most is under way and none is owed.
pub proof fn lemma_burst_is_one_request(
    session: I3View,
    n: nat,
    groups: Seq<Seq<WorkspaceView>>,
)
    requires
        session.fetching,
        !session.again,
    ensures
        session.asked_in_burst(n) == 0,
        session.after_burst(n).fetching,
        session.after_burst(n).store == session.store,
        session.after_burst(n).asks_on_workspaces() == (n > 0),
        session.after_burst(n).on_workspaces(groups).fetching == (n > 0),
        !session.after_burst(n).on_workspaces(groups).again,
    decreases n,
{
    if n > 0 {
        lemma_burst_is_one_request(session, (n - 1) as nat, groups);
    }
}

/// While no request is under way, the first of `n` notices is answered by a
/// request and the others are not.
pub proof fn lemma_first_notice_asks(session: I3View, n: nat)
    requires
        !session.fetching,
        !session.again,
        n > 0,
    ensures
        session.asked_in_burst(n) == 1,
        session.after_burst(n).fetching,
        session.after_burst(n).again == (n > 1),
        session.after_burst(n).store == session.store,
    decreases n,
{
    if n > 1 {
        lemma_first_notice_asks(session, (n - 1) as nat);
    } else {
        assert(session.after_burst(0) == session);
        assert(session.asked_in_burst(0) == 0);
    }
}

impl View for I3State {
    type V = I3View;

    closed spec fn view(&self) -> I3View {
        I3View { store: self.store@, fetching: self.fetching, again: self.again }
    }
}

impl I3State {
    /// A session in which nothing has happened yet.
    pub fn new() -> (session: I3State)
        ensures
            session@ == I3View::empty(),
    {
        I3State { store: Store::new(), fetching: false, again: false }
    }

    /// The workspaces, grouped by output.
    pub fn workspaces(&self) -> (groups: &Workspaces)
        ensures
            groups@ == self@.store.mirror.workspaces,
            groups_in_order(groups@),
    {
        self.store.mirror().workspaces()
    }

    /// A copy of the mirrored state as it stands.
    pub fn snapshot(&self) -> (copy: Snapshot)
        ensures
            copy@ == self@.store.mirror,
            groups_in_order(copy@.workspaces),
    {
        self.store.snapshot()
    }

    /// The request that shows the workspace with the number `num`.
    pub fn switch_workspace(&self, num: i32) -> (request: Request)
        ensures
            request@ == (RequestView::RunCommand {
                text: switch_words() + signed_decimal(num as int),
            }),
    {
        switch_workspace(num)
    }

    /// Registers an observer and gives it the least handle that is free.
    pub fn subscribe(&mut self) -> (handle: u64)
        ensures
            !old(self)@.store.observers.contains(handle),
            forall|lower: u64| lower < handle ==> old(self)@.store.observers.contains(lower),
            final(self)@ == (I3View {
                store: old(self)@.store.observed_by(old(self)@.store.observers.insert(handle)),
                ..old(self)@
            }),
    {
        self.store.subscribe()
    }

    /// Takes the observer with `handle` off the register. The result says
    /// whether it was on it.
    pub fn unsubscribe(&mut self, handle: u64) -> (was_registered: bool)
        ensures
            was_registered == old(self)@.store.observers.contains(handle),
            final(self)@ == (I3View {
                store: old(self)@.store.observed_by(old(self)@.store.observers.remove(handle)),
                ..old(self)@
            }),
    {
        self.store.unsubscribe(handle)
    }

    /// Takes a notice of `class` from the window manager. The result is the
    /// request for the listing, where the notice is answered by one.
    pub fn on_event(&mut self, class: EventClass) -> (request: Option<Request>)
        ensures
            final(self)@ == old(self)@.on_event(class),
            match request {
                Some(r) => old(self)@.asks_on_event(class) && r@ == RequestView::GetWorkspaces,
                None => !old(self)@.asks_on_event(class),
            },
    {
        if class != EventClass::Workspace {
            None
        } else if self.fetching {
            self.again = true;
            None
        } else {
            self.fetching = true;
            Some(Request::GetWorkspaces)
        }
    }

    /// Starts the session: asks for the first listing, as a notice about
    /// workspaces would.
    pub fn start(&mut self) -> (request: Option<Request>)
        ensures
            final(self)@ == old(self)@.on_event(EventClass::Workspace),
            match request {
                Some(r) => !old(self)@.fetching && r@ == RequestView::GetWorkspaces,
                None => old(self)@.fetching,
            },
    {
        self.on_event(EventClass::Workspace)
    }

    /// Takes a listing of all workspaces from the window manager: the mirror
    /// is reset to the listing, grouped by output and sorted by number, and
    /// the observers are called up. Where a notice came while the listing was
    /// under way, the next request for a listing is due.
    pub fn on_workspaces(&mut self, listing: Vec<WorkspaceState>) -> (delivery: Delivery)
        ensures
            final(self)@ == old(self)@.on_workspaces(final(self)@.store.mirror.workspaces),
            is_grouping(final(self)@.store.mirror.workspaces, views(listing@)),
            groups_in_order(final(self)@.store.mirror.workspaces),
            delivery.calls@.no_duplicates(),
            delivery.calls@.to_set() == old(self)@.store.observers,
            match delivery.request {
                Some(r) => old(self)@.asks_on_workspaces() && r@ == RequestView::GetWorkspaces,
                None => !old(self)@.asks_on_workspaces(),
            },
    {
        let groups = get_workspaces(listing);
        let calls = self.store.apply(NormalizedEvent::Reset { payload: Payload::Workspaces(groups) });
        let request = if self.again {
            Some(Request::GetWorkspaces)
        } else {
            None
        };
        self.fetching = self.again;
        self.again = false;
        Delivery { calls, request }
    }
}

} // verus!
