//! The session with the audio server.
//!
//! The server reports that a device is new, changed or gone, and for a new or
//! changed device no more than its number: the record has to be asked for, and
//! comes later. A device may go while its record is under way. The record that
//! then arrives is of a device that is no more, and is dropped: when a device
//! goes, every request for its record that is under way is marked, and the
//! answer to a marked request is not applied.

use crate::command::{issue, spec_issue, Command, CommandView, Request, RequestView};
use crate::event::{EventView, NormalizedEvent, Payload, PayloadView};
use crate::mirror::{MirrorView, Snapshot};
use crate::pulseaudio::sink::{DeviceView, SinkState, SourceState};
use crate::pulseaudio::{listing_views, DeviceKind, Sinks, Sources};
use crate::store::{Store, StoreView};
use vstd::prelude::*;

verus! {

/// What a notice of the server is about.
#[derive(Clone, Copy, Debug, PartialEq, Eq, Structural)]
pub enum Facility {
    Sink,
    Source,
    SinkInput,
    SourceOutput,
    Module,
    Client,
    SampleCache,
    Server,
    Card,
}

/// What a notice of the server says of its subject.
#[derive(Clone, Copy, Debug, PartialEq, Eq, Structural)]
pub enum Operation {
    New,
    Changed,
    Removed,
}

/// What a notice of the server means to the session.
#[derive(Clone, Copy, Debug, PartialEq, Eq, Structural)]
pub enum Notice {
    /// The device `index` of `kind` is gone.
    Gone { kind: DeviceKind, index: u32 },
    /// The device `index` of `kind` is new or changed: its record is to be
    /// asked for.
    Report { kind: DeviceKind, index: u32 },
    /// The server itself has changed: its default devices are to be asked for.
    Server,
    /// Nothing that the session mirrors.
    Ignored,
}

/// A request for the record of a device that is under way.
#[derive(Clone, Copy, Debug, PartialEq, Eq, Structural)]
pub struct Lookup {
    pub kind: DeviceKind,
    pub index: u32,
    /// The device went after the request was made: the answer is to be dropped.
    pub stale: bool,
}

/// What an event of the session leads to.
pub struct Reaction {
    /// The observers to call, each once, where the mirror has applied
    /// something.
    pub calls: Option<Vec<u64>>,
    /// The request to send to the server, where one is due.
    pub request: Option<Request>,
}

/// The session with the audio server: the mirror of its devices, the
/// observers of that mirror, and what is under way between the two.
pub struct PulseAudioState {
    store: Store,
    subscribed: bool,
    pending: Vec<Lookup>,
}

/// The session as a value.
pub struct PulseView {
    pub store: StoreView,
    /// The session has asked the server for its notices and its listings.
    pub subscribed: bool,
    /// The requests for records that are under way, oldest first.
    pub pending: Seq<Lookup>,
}

/// What a notice about `facility` that says `operation` of number `index`
/// means. A notice whose subject or operation is not known means nothing.
pub open spec fn spec_normalize(
    facility: Option<Facility>,
    operation: Option<Operation>,
    index: u32,
) -> Notice {
    match (facility, operation) {
        (Some(Facility::Sink), Some(Operation::Removed)) => Notice::Gone {
            kind: DeviceKind::Sink,
            index,
        },
        (Some(Facility::Sink), Some(_)) => Notice::Report { kind: DeviceKind::Sink, index },
        (Some(Facility::Source), Some(Operation::Removed)) => Notice::Gone {
            kind: DeviceKind::Source,
            index,
        },
        (Some(Facility::Source), Some(_)) => Notice::Report { kind: DeviceKind::Source, index },
        (Some(Facility::Server), Some(Operation::Changed)) => Notice::Server,
        _ => Notice::Ignored,
    }
}

/// What a notice about `facility` that says `operation` of number `index`
/// means.
pub fn normalize(facility: Option<Facility>, operation: Option<Operation>, index: u32) -> (notice:
    Notice)
    ensures
        notice == spec_normalize(facility, operation, index),
{
    match facility {
        Some(Facility::Sink) => match operation {
            Some(Operation::Removed) => Notice::Gone { kind: DeviceKind::Sink, index },
            Some(_) => Notice::Report { kind: DeviceKind::Sink, index },
            None => Notice::Ignored,
        },
        Some(Facility::Source) => match operation {
            Some(Operation::Removed) => Notice::Gone { kind: DeviceKind::Source, index },
            Some(_) => Notice::Report { kind: DeviceKind::Source, index },
            None => Notice::Ignored,
        },
        Some(Facility::Server) => match operation {
            Some(Operation::Changed) => Notice::Server,
            _ => Notice::Ignored,
        },
        _ => Notice::Ignored,
    }
}

/// `lookup` asks for the device `index` of `kind`.
pub open spec fn asks_for(lookup: Lookup, kind: DeviceKind, index: u32) -> bool {
    lookup.kind == kind && lookup.index == index
}

/// `pending` with every request for the device `index` of `kind` marked.
pub open spec fn marked(pending: Seq<Lookup>, kind: DeviceKind, index: u32) -> Seq<Lookup> {
    Seq::new(
        pending.len(),
        |i: int|
            if asks_for(pending[i], kind, index) {
                Lookup { stale: true, ..pending[i] }
            } else {
                pending[i]
            },
    )
}

/// The request at `at` is the oldest of `pending` that asks for the device
/// `index` of `kind`.
pub open spec fn is_oldest(pending: Seq<Lookup>, kind: DeviceKind, index: u32, at: int) -> bool {
    &&& 0 <= at < pending.len()
    &&& asks_for(pending[at], kind, index)
    &&& forall|i: int| 0 <= i < at ==> !asks_for(#[trigger] pending[i], kind, index)
}

/// Where the oldest request for the device `index` of `kind` stands in
/// `pending`, if there is one.
pub open spec fn oldest(pending: Seq<Lookup>, kind: DeviceKind, index: u32) -> Option<int> {
    if exists|at: int| is_oldest(pending, kind, index, at) {
        Some(choose|at: int| is_oldest(pending, kind, index, at))
    } else {
        None
    }
}

/// There is one oldest request at most.
pub proof fn lemma_oldest_is(pending: Seq<Lookup>, kind: DeviceKind, index: u32, at: int)
    requires
        is_oldest(pending, kind, index, at),
    ensures
        oldest(pending, kind, index) == Some(at),
{
    let chosen = choose|at: int| is_oldest(pending, kind, index, at);
    if chosen < at {
        assert(!asks_for(pending[chosen], kind, index));
    } else if at < chosen {
        assert(!asks_for(pending[at], kind, index));
    }
}

/// The requests that a session makes when the connection is ready.
pub open spec fn opening_requests() -> Seq<RequestView> {
    seq![
        RequestView::Subscribe,
        RequestView::GetServerInfo,
        RequestView::GetDeviceList { kind: DeviceKind::Sink },
        RequestView::GetDeviceList { kind: DeviceKind::Source },
    ]
}

/// The names of the default devices as the server reports them: a name that
/// it does not give counts as the empty name.
pub open spec fn server_payload(
    default_sink: Option<Seq<char>>,
    default_source: Option<Seq<char>>,
) -> PayloadView {
    PayloadView::Server {
        default_sink: match default_sink {
            Some(name) => name,
            None => Seq::empty(),
        },
        default_source: match default_source {
            Some(name) => name,
            None => Seq::empty(),
        },
    }
}

/// The listing of the devices of `kind` as a payload.
pub open spec fn listing_payload(kind: DeviceKind, listing: Seq<(u32, DeviceView)>) -> PayloadView {
    match kind {
        DeviceKind::Sink => PayloadView::Sinks(listing),
        DeviceKind::Source => PayloadView::Sources(listing),
    }
}

impl PulseView {
    /// The session before anything has happened.
    pub open spec fn empty() -> PulseView {
        PulseView { store: StoreView::empty(), subscribed: false, pending: Seq::empty() }
    }

    /// Whether a change of the connection's state makes the session ask for
    /// notices and listings: the first time that the connection is ready.
    pub open spec fn opens(self, ready: bool) -> bool {
        ready && !self.subscribed
    }

    /// The session after a change of the connection's state.
    pub open spec fn on_state_change(self, ready: bool) -> PulseView {
        if self.opens(ready) {
            PulseView { subscribed: true, ..self }
        } else {
            self
        }
    }

    /// The event that `notice` makes the mirror apply, if any.
    pub open spec fn event_of(notice: Notice) -> Option<EventView> {
        match notice {
            Notice::Gone { kind, index } => Some(EventView::Removed { kind, id: index }),
            _ => None,
        }
    }

    /// The request that `notice` is answered by, if any.
    pub open spec fn request_of(notice: Notice) -> Option<RequestView> {
        match notice {
            Notice::Report { kind, index } => Some(RequestView::GetDeviceByIndex { kind, index }),
            Notice::Server => Some(RequestView::GetServerInfo),
            _ => None,
        }
    }

    /// The session after `notice`. A device that is gone leaves the mirror at
    /// once, and the requests for its record that are under way are marked. A
    /// device that is new or changed has one more request under way.
    pub open spec fn on_notice(self, notice: Notice) -> PulseView {
        match notice {
            Notice::Gone { kind, index } => PulseView {
                store: self.store.apply(EventView::Removed { kind, id: index }),
                pending: marked(self.pending, kind, index),
                ..self
            },
            Notice::Report { kind, index } => PulseView {
                pending: self.pending.push(Lookup { kind, index, stale: false }),
                ..self
            },
            _ => self,
        }
    }

    /// The event that the answer `info` to a request for the device `index`
    /// of `kind` makes the mirror apply, if any: the record is applied where
    /// the answer brings one, the oldest such request is under way and is not
    /// marked.
    pub open spec fn event_of_info(
        self,
        kind: DeviceKind,
        index: u32,
        info: Option<DeviceView>,
    ) -> Option<EventView> {
        match (oldest(self.pending, kind, index), info) {
            (Some(at), Some(entity)) => if self.pending[at].stale {
                None
            } else {
                Some(EventView::Changed { kind, id: index, entity })
            },
            _ => None,
        }
    }

    /// The session after the answer `info` to a request for the device `index`
    /// of `kind`: the oldest such request is no longer under way.
    pub open spec fn on_info(
        self,
        kind: DeviceKind,
        index: u32,
        info: Option<DeviceView>,
    ) -> PulseView {
        PulseView {
            store: match self.event_of_info(kind, index, info) {
                Some(event) => self.store.apply(event),
                None => self.store,
            },
            pending: match oldest(self.pending, kind, index) {
                Some(at) => self.pending.remove(at),
                None => self.pending,
            },
            ..self
        }
    }

    /// The session after `payload` has arrived: a listing of devices, or the
    /// names of the default devices.
    pub open spec fn on_payload(self, payload: PayloadView) -> PulseView {
        PulseView { store: self.store.apply(EventView::Reset { payload }), ..self }
    }
}

/// When a device has gone, every request for its record that is under way is
/// marked, and the device is not in the mirror.
pub proof fn lemma_gone_marks(session: PulseView, kind: DeviceKind, index: u32)
    ensures
        ({
            let after = session.on_notice(Notice::Gone { kind, index });
            &&& !after.store.mirror.devices(kind).contains_key(index)
            &&& after.pending.len() == session.pending.len()
            &&& forall|i: int|
                0 <= i < after.pending.len() && asks_for(#[trigger] after.pending[i], kind, index)
                    ==> after.pending[i].stale
            &&& forall|i: int|
                0 <= i < after.pending.len() ==> asks_for(#[trigger] after.pending[i], kind, index)
                    == asks_for(session.pending[i], kind, index)
        }),
{
}

/// A notice takes no request off the list of those under way, changes of no
/// request what it asks for, and unmarks none: a request that is marked stays
/// marked until its answer comes.
pub proof fn lemma_marks_stay(session: PulseView, notice: Notice)
    ensures
        session.on_notice(notice).pending.len() >= session.pending.len(),
        forall|i: int|
            0 <= i < session.pending.len() ==> {
                let before = #[trigger] session.pending[i];
                let after = session.on_notice(notice).pending[i];
                &&& after.kind == before.kind
                &&& after.index == before.index
                &&& before.stale ==> after.stale
            },
{
}

/// A record that arrives for a marked request changes nothing in the mirror
/// and calls up no observer.
pub proof fn lemma_marked_answer_is_dropped(
    session: PulseView,
    kind: DeviceKind,
    index: u32,
    info: Option<DeviceView>,
)
    requires
        forall|i: int|
            0 <= i < session.pending.len() && asks_for(#[trigger] session.pending[i], kind, index)
                ==> session.pending[i].stale,
    ensures
        session.event_of_info(kind, index, info) is None,
        session.on_info(kind, index, info).store == session.store,
{
    if oldest(session.pending, kind, index) is Some {
        let at = choose|at: int| is_oldest(session.pending, kind, index, at);
        assert(asks_for(session.pending[at], kind, index));
    }
}

/// A device that goes while its record is under way does not come back when
/// the record arrives: the request was made, then the device went, then the
/// answer came, and the mirror is as the going left it, without the device.
pub proof fn lemma_late_record_is_dropped(
    session: PulseView,
    kind: DeviceKind,
    index: u32,
    info: Option<DeviceView>,
)
    ensures
        ({
            let asked = session.on_notice(Notice::Report { kind, index });
            let gone = asked.on_notice(Notice::Gone { kind, index });
            let answered = gone.on_info(kind, index, info);
            &&& answered.store == gone.store
            &&& !answered.store.mirror.devices(kind).contains_key(index)
        }),
{
    let asked = session.on_notice(Notice::Report { kind, index });
    lemma_gone_marks(asked, kind, index);
    lemma_marked_answer_is_dropped(asked.on_notice(Notice::Gone { kind, index }), kind, index, info);
}

/// The connection may report more than once that it is ready: the session
/// asks for notices and listings the first time only.
pub proof fn lemma_ready_once(session: PulseView, ready: bool)
    ensures
        !session.on_state_change(true).opens(ready),
        session.on_state_change(true).on_state_change(ready) == session.on_state_change(true),
{
}

/// Whatever happens in a session, the observers are called up as often as
/// the mirror applies an event: every step adds the same to both counts.
pub proof fn lemma_session_announces_what_it_applies(
    session: PulseView,
    ready: bool,
    notice: Notice,
    kind: DeviceKind,
    index: u32,
    info: Option<DeviceView>,
    payload: PayloadView,
)
    ensures
        session.on_state_change(ready).store == session.store,
        session.on_notice(notice).store.notified - session.store.notified == session.on_notice(
            notice,
        ).store.applied - session.store.applied,
        session.on_notice(notice).store.applied - session.store.applied == if PulseView::event_of(
            notice,
        ) is Some {
            1int
        } else {
            0int
        },
        session.on_info(kind, index, info).store.notified - session.store.notified
            == session.on_info(kind, index, info).store.applied - session.store.applied,
        session.on_info(kind, index, info).store.applied - session.store.applied
            == if session.event_of_info(kind, index, info) is Some {
            1int
        } else {
            0int
        },
        session.on_payload(payload).store.notified == session.store.notified + 1,
        session.on_payload(payload).store.applied == session.store.applied + 1,
{
}

impl View for PulseAudioState {
    type V = PulseView;

    closed spec fn view(&self) -> PulseView {
        PulseView { store: self.store@, subscribed: self.subscribed, pending: self.pending@ }
    }
}

impl PulseAudioState {
    /// A session in which nothing has happened yet.
    pub fn new() -> (session: PulseAudioState)
        ensures
            session@ == PulseView::empty(),
    {
        PulseAudioState { store: Store::new(), subscribed: false, pending: Vec::new() }
    }

    /// The name of the sink that the server uses by default.
    pub fn default_sink_name(&self) -> (name: String)
        ensures
            name@ == self@.store.mirror.default_sink,
    {
        self.store.mirror().default_sink_name()
    }

    /// The name of the source that the server uses by default.
    pub fn default_source_name(&self) -> (name: String)
        ensures
            name@ == self@.store.mirror.default_source,
    {
        self.store.mirror().default_source_name()
    }

    /// The sink that the server uses by default: a sink of the default name.
    pub fn default_sink(&self) -> (found: Option<SinkState>)
        ensures
            match found {
                Some(state) => MirrorView::is_named(
                    self@.store.mirror.sinks,
                    self@.store.mirror.default_sink,
                    state@,
                ),
                None => MirrorView::none_named(
                    self@.store.mirror.sinks,
                    self@.store.mirror.default_sink,
                ),
            },
    {
        self.store.mirror().default_sink()
    }

    /// The source that the server uses by default: a source of the default
    /// name.
    pub fn default_source(&self) -> (found: Option<SourceState>)
        ensures
            match found {
                Some(state) => MirrorView::is_named(
                    self@.store.mirror.sources,
                    self@.store.mirror.default_source,
                    state@,
                ),
                None => MirrorView::none_named(
                    self@.store.mirror.sources,
                    self@.store.mirror.default_source,
                ),
            },
    {
        self.store.mirror().default_source()
    }

    /// The sinks.
    pub fn sinks(&self) -> (sinks: &Sinks)
        ensures
            sinks@ == self@.store.mirror.sinks,
    {
        self.store.mirror().sinks()
    }

    /// The sources.
    pub fn sources(&self) -> (sources: &Sources)
        ensures
            sources@ == self@.store.mirror.sources,
    {
        self.store.mirror().sources()
    }

    /// A copy of the mirrored state as it stands.
    pub fn snapshot(&self) -> (copy: Snapshot)
        ensures
            copy@ == self@.store.mirror,
    {
        self.store.snapshot()
    }

    /// The request that makes the sink called `name` the default.
    pub fn set_default_sink(&self, name: &str) -> (request: Request)
        ensures
            request@ == (RequestView::SetDefault { kind: DeviceKind::Sink, name: name@ }),
    {
        Request::SetDefault { kind: DeviceKind::Sink, name: name.to_owned() }
    }

    /// The request that makes the source called `name` the default.
    pub fn set_default_source(&self, name: &str) -> (request: Request)
        ensures
            request@ == (RequestView::SetDefault { kind: DeviceKind::Source, name: name@ }),
    {
        Request::SetDefault { kind: DeviceKind::Source, name: name.to_owned() }
    }

    /// The request that `command` leads to, if it leads to one.
    pub fn issue(&self, command: &Command) -> (request: Option<Request>)
        ensures
            match request {
                Some(r) => spec_issue(self@.store.mirror, command@) == Some(r@),
                None => spec_issue(self@.store.mirror, command@) is None,
            },
    {
        issue(self.store.mirror(), command)
    }

    /// The request that mutes the device `id` of `kind` if it sounds, and lets
    /// it sound if it is muted; none if the mirror has no such device.
    pub fn toggle_mute(&self, kind: DeviceKind, id: u32) -> (request: Option<Request>)
        ensures
            match request {
                Some(r) => spec_issue(self@.store.mirror, CommandView::ToggleMute { kind, id })
                    == Some(r@),
                None => spec_issue(self@.store.mirror, CommandView::ToggleMute { kind, id })
                    is None,
            },
    {
        issue(self.store.mirror(), &Command::ToggleMute { kind, id })
    }

    /// The request that sets the device `id` of `kind` to `percent`; none if
    /// the mirror has no such device.
    pub fn set_volume(&self, kind: DeviceKind, id: u32, percent: u32) -> (request: Option<Request>)
        ensures
            match request {
                Some(r) => spec_issue(
                    self@.store.mirror,
                    CommandView::SetVolume { kind, id, percent },
                ) == Some(r@),
                None => spec_issue(self@.store.mirror, CommandView::SetVolume { kind, id, percent })
                    is None,
            },
    {
        issue(self.store.mirror(), &Command::SetVolume { kind, id, percent })
    }

    /// Registers an observer and gives it the least handle that is free.
    pub fn subscribe(&mut self) -> (handle: u64)
        ensures
            !old(self)@.store.observers.contains(handle),
            forall|lower: u64| lower < handle ==> old(self)@.store.observers.contains(lower),
            final(self)@ == (PulseView {
                store: old(self)@.store.observed_by(old(self)@.store.observers.insert(handle)),
                ..old(self)@
            }),
    {
        self.store.subscribe()
    }

    /// Takes the observer with `handle` off the register. The result says
    /// whether it was on it.
    pub fn unsubscribe(&mut self, handle: u64) -> (was_registered: bool)
        ensures
            was_registered == old(self)@.store.observers.contains(handle),
            final(self)@ == (PulseView {
                store: old(self)@.store.observed_by(old(self)@.store.observers.remove(handle)),
                ..old(self)@
            }),
    {
        self.store.unsubscribe(handle)
    }

    /// Takes a change of the connection's state; `ready` says whether the
    /// connection can now be used. The result holds the requests to send: the
    /// first time that the connection is ready, for the server's notices, for
    /// its default devices and for the listings of sinks and of sources; at
    /// any other time, none.
    pub fn on_state_change(&mut self, ready: bool) -> (requests: Vec<Request>)
        ensures
            final(self)@ == old(self)@.on_state_change(ready),
            requests@.map_values(|r: Request| r@) == if old(self)@.opens(ready) {
                opening_requests()
            } else {
                Seq::<RequestView>::empty()
            },
    {
        let mut requests: Vec<Request> = Vec::new();
        if ready && !self.subscribed {
            self.subscribed = true;
            requests.push(Request::Subscribe);
            requests.push(Request::GetServerInfo);
            requests.push(Request::GetDeviceList { kind: DeviceKind::Sink });
            requests.push(Request::GetDeviceList { kind: DeviceKind::Source });
            assert(requests@.map_values(|r: Request| r@) =~= opening_requests());
        } else {
            assert(requests@.map_values(|r: Request| r@) =~= Seq::<RequestView>::empty());
        }
        requests
    }

    /// Takes a notice from the server about `facility`, saying `operation` of
    /// the number `index`.
    pub fn on_event(
        &mut self,
        facility: Option<Facility>,
        operation: Option<Operation>,
        index: u32,
    ) -> (reaction: Reaction)
        ensures
            final(self)@ == old(self)@.on_notice(spec_normalize(facility, operation, index)),
            match reaction.calls {
                Some(calls) => PulseView::event_of(spec_normalize(facility, operation, index))
                    is Some && calls@.no_duplicates() && calls@.to_set()
                    == old(self)@.store.observers,
                None => PulseView::event_of(spec_normalize(facility, operation, index)) is None,
            },
            match reaction.request {
                Some(r) => PulseView::request_of(spec_normalize(facility, operation, index))
                    == Some(r@),
                None => PulseView::request_of(spec_normalize(facility, operation, index))
                    is None,
            },
    {
        match normalize(facility, operation, index) {
            Notice::Gone { kind, index } => {
                let calls = self.store.apply(NormalizedEvent::Removed { kind, id: index });
                self.mark(kind, index);
                Reaction { calls: Some(calls), request: None }
            },
            Notice::Report { kind, index } => {
                self.pending.push(Lookup { kind, index, stale: false });
                Reaction { calls: None, request: Some(Request::GetDeviceByIndex { kind, index }) }
            },
            Notice::Server => Reaction { calls: None, request: Some(Request::GetServerInfo) },
            Notice::Ignored => Reaction { calls: None, request: None },
        }
    }

    /// Marks every request for the device `index` of `kind` that is under way.
    fn mark(&mut self, kind: DeviceKind, index: u32)
        ensures
            final(self)@ == (PulseView {
                pending: marked(old(self)@.pending, kind, index),
                ..old(self)@
            }),
    {
        let mut pending: Vec<Lookup> = Vec::new();
        let mut i: usize = 0;
        while i < self.pending.len()
            invariant
                i <= self.pending.len(),
                *self == *old(self),
                pending@ =~= marked(self.pending@, kind, index).take(i as int),
            decreases self.pending.len() - i,
        {
            let lookup = self.pending[i];
            if lookup.kind == kind && lookup.index == index {
                pending.push(Lookup { kind: lookup.kind, index: lookup.index, stale: true });
            } else {
                pending.push(lookup);
            }
            i += 1;
        }
        assert(pending@ =~= marked(self.pending@, kind, index));
        self.pending = pending;
    }

    /// Takes the answer to a request for the record of the device `index` of
    /// `kind`; `info` is the record, or nothing where the server had none to
    /// give. The answer belongs to the oldest such request that is under way.
    /// The result holds the observers to call, where the record was applied.
    pub fn on_device_info(&mut self, kind: DeviceKind, index: u32, info: Option<SinkState>) -> (calls:
        Option<Vec<u64>>)
        ensures
            final(self)@ == old(self)@.on_info(
                kind,
                index,
                match info {
                    Some(state) => Some(state@),
                    None => None,
                },
            ),
            match calls {
                Some(calls) => old(self)@.event_of_info(
                    kind,
                    index,
                    match info {
                        Some(state) => Some(state@),
                        None => None,
                    },
                ) is Some && calls@.no_duplicates() && calls@.to_set()
                    == old(self)@.store.observers,
                None => old(self)@.event_of_info(
                    kind,
                    index,
                    match info {
                        Some(state) => Some(state@),
                        None => None,
                    },
                ) is None,
            },
    {
        let mut at: usize = 0;
        while at < self.pending.len() && !(self.pending[at].kind == kind && self.pending[at].index
            == index)
            invariant
                at <= self.pending.len(),
                *self == *old(self),
                forall|i: int| 0 <= i < at ==> !asks_for(#[trigger] self.pending@[i], kind, index),
            decreases self.pending.len() - at,
        {
            at += 1;
        }
        if at < self.pending.len() {
            proof {
                lemma_oldest_is(self.pending@, kind, index, at as int);
            }
            let lookup = self.pending.remove(at);
            match info {
                Some(entity) => {
                    if lookup.stale {
                        None
                    } else {
                        Some(self.store.apply(NormalizedEvent::Changed { kind, id: index, entity }))
                    }
                },
                None => None,
            }
        } else {
            assert(oldest(self.pending@, kind, index) is None);
            None
        }
    }

    /// Takes the answer to a request for the record of the sink `index`.
    pub fn on_sink_info(&mut self, index: u32, info: Option<SinkState>) -> (calls: Option<Vec<u64>>)
        ensures
            final(self)@ == old(self)@.on_info(
                DeviceKind::Sink,
                index,
                match info {
                    Some(state) => Some(state@),
                    None => None,
                },
            ),
            calls is Some == old(self)@.event_of_info(
                DeviceKind::Sink,
                index,
                match info {
                    Some(state) => Some(state@),
                    None => None,
                },
            ) is Some,
            calls matches Some(c) ==> c@.no_duplicates() && c@.to_set()
                == old(self)@.store.observers,
    {
        self.on_device_info(DeviceKind::Sink, index, info)
    }

    /// Takes the answer to a request for the record of the source `index`.
    pub fn on_source_info(&mut self, index: u32, info: Option<SourceState>) -> (calls: Option<
        Vec<u64>,
    >)
        ensures
            final(self)@ == old(self)@.on_info(
                DeviceKind::Source,
                index,
                match info {
                    Some(state) => Some(state@),
                    None => None,
                },
            ),
            calls is Some == old(self)@.event_of_info(
                DeviceKind::Source,
                index,
                match info {
                    Some(state) => Some(state@),
                    None => None,
                },
            ) is Some,
            calls matches Some(c) ==> c@.no_duplicates() && c@.to_set()
                == old(self)@.store.observers,
    {
        self.on_device_info(DeviceKind::Source, index, info)
    }

    /// Takes the listing of all devices of `kind`: the mirror is reset to it,
    /// and the observers are called up.
    pub fn on_device_list(&mut self, kind: DeviceKind, listing: Vec<(u32, SinkState)>) -> (calls:
        Vec<u64>)
        ensures
            final(self)@ == old(self)@.on_payload(listing_payload(kind, listing_views(listing@))),
            calls@.no_duplicates(),
            calls@.to_set() == old(self)@.store.observers,
    {
        let payload = match kind {
            DeviceKind::Sink => Payload::Sinks(listing),
            DeviceKind::Source => Payload::Sources(listing),
        };
        self.store.apply(NormalizedEvent::Reset { payload })
    }

    /// Takes the names of the default devices as the server reports them: the
    /// mirror takes both, whatever it had, and the observers are called up. A
    /// name that the server does not give counts as the empty name.
    pub fn on_server_info(
        &mut self,
        default_sink: Option<String>,
        default_source: Option<String>,
    ) -> (calls: Vec<u64>)
        ensures
            final(self)@ == old(self)@.on_payload(
                server_payload(
                    match default_sink {
                        Some(name) => Some(name@),
                        None => None,
                    },
                    match default_source {
                        Some(name) => Some(name@),
                        None => None,
                    },
                ),
            ),
            calls@.no_duplicates(),
            calls@.to_set() == old(self)@.store.observers,
    {
        let default_sink = match default_sink {
            Some(name) => name,
            None => String::new(),
        };
        let default_source = match default_source {
            Some(name) => name,
            None => String::new(),
        };
        self.store.apply(
            NormalizedEvent::Reset { payload: Payload::Server { default_sink, default_source } },
        )
    }
}

} // verus!
