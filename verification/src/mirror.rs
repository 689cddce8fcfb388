//! The store of the mirrored state.
//!
//! A mirror holds what was last applied for each workspace and device. Events
//! are its only way in, and every event counts as a change: the mirror does
//! not compare what it is given with what it has.

use crate::event::{EventView, NormalizedEvent, Payload, PayloadView};
use crate::i3::{groups_in_order, WorkspaceView, Workspaces};
use crate::pulseaudio::sink::{DeviceView, SinkState, SourceState};
use crate::pulseaudio::{
    collect_devices, device_views, devices_of, find_by_name, DeviceKind, Sinks, Sources,
};
use vstd::prelude::*;

verus! {

broadcast use vstd::std_specs::hash::group_hash_axioms;

/// The mirrored state.
pub struct Mirror {
    workspaces: Workspaces,
    sinks: Sinks,
    sources: Sources,
    default_sink: String,
    default_source: String,
}

/// A copy of the mirrored state as it stood at one moment.
pub struct Snapshot {
    pub workspaces: Workspaces,
    pub sinks: Sinks,
    pub sources: Sources,
    pub default_sink: String,
    pub default_source: String,
}

/// The mirrored state as a value.
pub struct MirrorView {
    /// The groups of workspaces, one for each output.
    pub workspaces: Seq<Seq<WorkspaceView>>,
    pub sinks: Map<u32, DeviceView>,
    pub sources: Map<u32, DeviceView>,
    /// The name of the sink that the server uses by default.
    pub default_sink: Seq<char>,
    /// The name of the source that the server uses by default.
    pub default_source: Seq<char>,
}

impl MirrorView {
    /// The state before any event.
    pub open spec fn empty() -> MirrorView {
        MirrorView {
            workspaces: Seq::empty(),
            sinks: Map::empty(),
            sources: Map::empty(),
            default_sink: Seq::empty(),
            default_source: Seq::empty(),
        }
    }

    /// The devices of `kind`.
    pub open spec fn devices(self, kind: DeviceKind) -> Map<u32, DeviceView> {
        match kind {
            DeviceKind::Sink => self.sinks,
            DeviceKind::Source => self.sources,
        }
    }

    /// The state with `devices` as the devices of `kind`.
    pub open spec fn with_devices(self, kind: DeviceKind, devices: Map<u32, DeviceView>) -> MirrorView {
        match kind {
            DeviceKind::Sink => MirrorView { sinks: devices, ..self },
            DeviceKind::Source => MirrorView { sources: devices, ..self },
        }
    }

    /// The state after a `Reset` to `payload`: the collection that the payload
    /// names is the payload, the others are as before.
    pub open spec fn reset(self, payload: PayloadView) -> MirrorView {
        match payload {
            PayloadView::Workspaces(groups) => MirrorView { workspaces: groups, ..self },
            PayloadView::Sinks(listing) => MirrorView { sinks: devices_of(listing), ..self },
            PayloadView::Sources(listing) => MirrorView { sources: devices_of(listing), ..self },
            PayloadView::Server { default_sink, default_source } => MirrorView {
                default_sink,
                default_source,
                ..self
            },
        }
    }

    /// The state after `event`.
    pub open spec fn apply(self, event: EventView) -> MirrorView {
        match event {
            EventView::Reset { payload } => self.reset(payload),
            EventView::Added { kind, id, entity } => self.with_devices(
                kind,
                self.devices(kind).insert(id, entity),
            ),
            EventView::Changed { kind, id, entity } => self.with_devices(
                kind,
                self.devices(kind).insert(id, entity),
            ),
            EventView::Removed { kind, id } => self.with_devices(
                kind,
                self.devices(kind).remove(id),
            ),
        }
    }

    /// The state after all of `events`, in their order.
    pub open spec fn apply_all(self, events: Seq<EventView>) -> MirrorView
        decreases events.len(),
    {
        if events.len() == 0 {
            self
        } else {
            self.apply_all(events.drop_last()).apply(events.last())
        }
    }

    /// `state` is a device that the server calls `name`.
    pub open spec fn is_named(devices: Map<u32, DeviceView>, name: Seq<char>, state: DeviceView) -> bool {
        exists|id: u32|
            #![trigger devices[id]]
            devices.contains_key(id) && devices[id] == state && state.name == name
    }

    /// No device is called `name` by the server.
    pub open spec fn none_named(devices: Map<u32, DeviceView>, name: Seq<char>) -> bool {
        forall|id: u32| #![trigger devices[id]] devices.contains_key(id) ==> devices[id].name != name
    }
}

/// After a `Reset`, whatever was applied before it, the collection that the
/// payload names is the payload: the groups of workspaces as they are given,
/// sorted by number as every grouping is; the devices as the listing reports
/// them; the default names as given. The other collections are as they were.
pub proof fn lemma_reset_is_payload(mirror: MirrorView, events: Seq<EventView>, payload: PayloadView)
    requires
        payload matches PayloadView::Workspaces(groups) ==> groups_in_order(groups),
    ensures
        ({
            let before = mirror.apply_all(events);
            let after = mirror.apply_all(events.push(EventView::Reset { payload }));
            match payload {
                PayloadView::Workspaces(groups) => after == (MirrorView {
                    workspaces: groups,
                    ..before
                }) && groups_in_order(after.workspaces),
                PayloadView::Sinks(listing) => after == (MirrorView {
                    sinks: devices_of(listing),
                    ..before
                }),
                PayloadView::Sources(listing) => after == (MirrorView {
                    sources: devices_of(listing),
                    ..before
                }),
                PayloadView::Server { default_sink, default_source } => after == (MirrorView {
                    default_sink,
                    default_source,
                    ..before
                }),
            }
        }),
{
    let grown = events.push(EventView::Reset { payload });
    assert(grown.drop_last() =~= events);
}

/// A device that is removed is not in the mirror afterwards, whether it was
/// before or not, and a device that is added or changed is in it with the
/// record given, whatever the mirror had.
pub proof fn lemma_applied_last_stands(mirror: MirrorView, kind: DeviceKind, id: u32, entity: DeviceView)
    ensures
        !mirror.apply(EventView::Removed { kind, id }).devices(kind).contains_key(id),
        mirror.apply(EventView::Added { kind, id, entity }).devices(kind)[id] == entity,
        mirror.apply(EventView::Changed { kind, id, entity }).devices(kind)[id] == entity,
        mirror.apply(EventView::Changed { kind, id, entity }).devices(kind).contains_key(id),
        mirror.apply(EventView::Changed { kind, id, entity }) == mirror.apply(
            EventView::Added { kind, id, entity },
        ),
{
}

impl View for Mirror {
    type V = MirrorView;

    closed spec fn view(&self) -> MirrorView {
        MirrorView {
            workspaces: self.workspaces@,
            sinks: self.sinks@,
            sources: self.sources@,
            default_sink: self.default_sink@,
            default_source: self.default_source@,
        }
    }
}

impl View for Snapshot {
    type V = MirrorView;

    open spec fn view(&self) -> MirrorView {
        MirrorView {
            workspaces: self.workspaces@,
            sinks: self.sinks@,
            sources: self.sources@,
            default_sink: self.default_sink@,
            default_source: self.default_source@,
        }
    }
}

impl Mirror {
    /// A mirror that has seen no event.
    pub fn new() -> (mirror: Mirror)
        ensures
            mirror@ == MirrorView::empty(),
    {
        let mirror = Mirror {
            workspaces: Workspaces::new(),
            sinks: Sinks(std::collections::HashMap::new()),
            sources: Sources(std::collections::HashMap::new()),
            default_sink: String::new(),
            default_source: String::new(),
        };
        assert(mirror.sinks@ =~= Map::empty());
        assert(mirror.sources@ =~= Map::empty());
        mirror
    }

    /// Applies `event`. The result says whether the state counts as changed,
    /// and it always does: also where the event brings what the mirror has,
    /// or removes what it has not.
    pub fn apply(&mut self, event: NormalizedEvent) -> (changed: bool)
        ensures
            changed,
            final(self)@ == old(self)@.apply(event@),
            groups_in_order(final(self)@.workspaces),
    {
        match event {
            NormalizedEvent::Reset { payload } => match payload {
                Payload::Workspaces(groups) => {
                    self.workspaces = groups;
                },
                Payload::Sinks(listing) => {
                    self.sinks = Sinks(collect_devices(listing));
                },
                Payload::Sources(listing) => {
                    self.sources = Sources(collect_devices(listing));
                },
                Payload::Server { default_sink, default_source } => {
                    self.default_sink = default_sink;
                    self.default_source = default_source;
                },
            },
            NormalizedEvent::Added { kind, id, entity } => {
                self.put(kind, id, entity);
            },
            NormalizedEvent::Changed { kind, id, entity } => {
                self.put(kind, id, entity);
            },
            NormalizedEvent::Removed { kind, id } => {
                match kind {
                    DeviceKind::Sink => {
                        let ghost before = self.sinks.0@;
                        self.sinks.0.remove(&id);
                        assert(self.sinks@ =~= device_views(before).remove(id));
                    },
                    DeviceKind::Source => {
                        let ghost before = self.sources.0@;
                        self.sources.0.remove(&id);
                        assert(self.sources@ =~= device_views(before).remove(id));
                    },
                }
            },
        }
        proof {
            use_type_invariant(&self.workspaces);
        }
        true
    }

    /// Sets the record of the device `id` of `kind`, whether it had one or not.
    fn put(&mut self, kind: DeviceKind, id: u32, entity: SinkState)
        ensures
            final(self)@ == old(self)@.with_devices(
                kind,
                old(self)@.devices(kind).insert(id, entity@),
            ),
    {
        match kind {
            DeviceKind::Sink => {
                let ghost before = self.sinks.0@;
                self.sinks.0.insert(id, entity);
                assert(self.sinks@ =~= device_views(before).insert(id, entity@));
            },
            DeviceKind::Source => {
                let ghost before = self.sources.0@;
                self.sources.0.insert(id, entity);
                assert(self.sources@ =~= device_views(before).insert(id, entity@));
            },
        }
    }

    /// A copy of the state as it stands.
    pub fn snapshot(&self) -> (copy: Snapshot)
        ensures
            copy@ == self@,
            groups_in_order(copy@.workspaces),
    {
        Snapshot {
            workspaces: self.workspaces.duplicate(),
            sinks: Sinks(self.sinks.0.clone()),
            sources: Sources(self.sources.0.clone()),
            default_sink: self.default_sink.clone(),
            default_source: self.default_source.clone(),
        }
    }

    /// The workspaces, grouped by output.
    pub fn workspaces(&self) -> (groups: &Workspaces)
        ensures
            groups@ == self@.workspaces,
            groups_in_order(groups@),
    {
        proof {
            use_type_invariant(&self.workspaces);
        }
        &self.workspaces
    }

    /// The sinks.
    pub fn sinks(&self) -> (sinks: &Sinks)
        ensures
            sinks@ == self@.sinks,
    {
        &self.sinks
    }

    /// The sources.
    pub fn sources(&self) -> (sources: &Sources)
        ensures
            sources@ == self@.sources,
    {
        &self.sources
    }

    /// The name of the sink that the server uses by default.
    pub fn default_sink_name(&self) -> (name: String)
        ensures
            name@ == self@.default_sink,
    {
        self.default_sink.clone()
    }

    /// The name of the source that the server uses by default.
    pub fn default_source_name(&self) -> (name: String)
        ensures
            name@ == self@.default_source,
    {
        self.default_source.clone()
    }

    /// The sink that the server uses by default: a sink of the default name.
    /// The default is found by name, since the server gives the number of a
    /// device that is gone to a later one.
    pub fn default_sink(&self) -> (found: Option<SinkState>)
        ensures
            match found {
                Some(state) => MirrorView::is_named(self@.sinks, self@.default_sink, state@),
                None => MirrorView::none_named(self@.sinks, self@.default_sink),
            },
    {
        find_by_name(&self.sinks.0, self.default_sink.as_str())
    }

    /// The source that the server uses by default: a source of the default name.
    pub fn default_source(&self) -> (found: Option<SourceState>)
        ensures
            match found {
                Some(state) => MirrorView::is_named(self@.sources, self@.default_source, state@),
                None => MirrorView::none_named(self@.sources, self@.default_source),
            },
    {
        find_by_name(&self.sources.0, self.default_source.as_str())
    }
}

} // verus!
