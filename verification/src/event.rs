//! The one shape of event that every source of state is turned into.

use crate::i3::{WorkspaceView, Workspaces};
use crate::pulseaudio::sink::{DeviceView, SinkState, SourceState};
use crate::pulseaudio::{listing_views, DeviceKind};
use vstd::prelude::*;

verus! {

/// What a `Reset` sets a collection to. The variant says which collection.
pub enum Payload {
    /// All workspaces, grouped by output.
    Workspaces(Workspaces),
    /// All sinks, each with its number.
    Sinks(Vec<(u32, SinkState)>),
    /// All sources, each with its number.
    Sources(Vec<(u32, SourceState)>),
    /// The names of the devices that the server uses by default.
    Server { default_sink: String, default_source: String },
}

/// A change of the mirrored state.
pub enum NormalizedEvent {
    /// A collection is replaced as a whole.
    Reset { payload: Payload },
    /// A device has appeared.
    Added { kind: DeviceKind, id: u32, entity: SinkState },
    /// A device is reported anew.
    Changed { kind: DeviceKind, id: u32, entity: SinkState },
    /// A device is gone.
    Removed { kind: DeviceKind, id: u32 },
}

/// A payload as a value.
pub enum PayloadView {
    Workspaces(Seq<Seq<WorkspaceView>>),
    Sinks(Seq<(u32, DeviceView)>),
    Sources(Seq<(u32, DeviceView)>),
    Server { default_sink: Seq<char>, default_source: Seq<char> },
}

/// An event as a value.
pub enum EventView {
    Reset { payload: PayloadView },
    Added { kind: DeviceKind, id: u32, entity: DeviceView },
    Changed { kind: DeviceKind, id: u32, entity: DeviceView },
    Removed { kind: DeviceKind, id: u32 },
}

impl View for Payload {
    type V = PayloadView;

    open spec fn view(&self) -> PayloadView {
        match *self {
            Payload::Workspaces(groups) => PayloadView::Workspaces(groups@),
            Payload::Sinks(listing) => PayloadView::Sinks(listing_views(listing@)),
            Payload::Sources(listing) => PayloadView::Sources(listing_views(listing@)),
            Payload::Server { default_sink, default_source } => PayloadView::Server {
                default_sink: default_sink@,
                default_source: default_source@,
            },
        }
    }
}

impl View for NormalizedEvent {
    type V = EventView;

    open spec fn view(&self) -> EventView {
        match *self {
            NormalizedEvent::Reset { payload } => EventView::Reset { payload: payload@ },
            NormalizedEvent::Added { kind, id, entity } => EventView::Added {
                kind,
                id,
                entity: entity@,
            },
            NormalizedEvent::Changed { kind, id, entity } => EventView::Changed {
                kind,
                id,
                entity: entity@,
            },
            NormalizedEvent::Removed { kind, id } => EventView::Removed { kind, id },
        }
    }
}

} // verus!
