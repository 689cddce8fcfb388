//! The audio server's devices.

pub mod sink;
pub mod state;
pub mod util;

use crate::pulseaudio::sink::{DeviceView, SinkState, SourceState};
pub use crate::pulseaudio::state::PulseAudioState;
use std::collections::HashMap;
use vstd::prelude::*;

verus! {

broadcast use vstd::std_specs::hash::group_hash_axioms;

/// The two kinds of audio device. The server numbers each kind by itself.
#[derive(Clone, Copy, Debug, PartialEq, Eq, Structural)]
pub enum DeviceKind {
    Sink,
    Source,
}

/// The sinks that the server has, by the number it gave each.
#[derive(Clone, Debug)]
pub struct Sinks(pub HashMap<u32, SinkState>);

/// The sources that the server has, by the number it gave each.
#[derive(Clone, Debug)]
pub struct Sources(pub HashMap<u32, SourceState>);

/// The records of `devices` as values.
pub open spec fn device_views(devices: Map<u32, SinkState>) -> Map<u32, DeviceView> {
    devices.map_values(|s: SinkState| s@)
}

/// The records of `listing` as values.
pub open spec fn listing_views(listing: Seq<(u32, SinkState)>) -> Seq<(u32, DeviceView)> {
    listing.map_values(|entry: (u32, SinkState)| (entry.0, entry.1@))
}

/// The devices that `listing` reports, by number. Where it reports a number
/// twice, the later report stands.
pub open spec fn devices_of(listing: Seq<(u32, DeviceView)>) -> Map<u32, DeviceView>
    decreases listing.len(),
{
    if listing.len() == 0 {
        Map::empty()
    } else {
        devices_of(listing.drop_last()).insert(listing.last().0, listing.last().1)
    }
}

/// The devices of a listing are those that it reports, each with the record
/// of its last report: with its only one, where the listing reports no number
/// twice.
pub proof fn lemma_devices_of(listing: Seq<(u32, DeviceView)>)
    ensures
        forall|id: u32|
            devices_of(listing).contains_key(id) <==> exists|i: int|
                0 <= i < listing.len() && (#[trigger] listing[i]).0 == id,
        forall|i: int|
            0 <= i < listing.len() && (forall|j: int|
                i < j < listing.len() ==> (#[trigger] listing[j]).0 != listing[i].0)
                ==> devices_of(listing)[(#[trigger] listing[i]).0] == listing[i].1,
    decreases listing.len(),
{
    if listing.len() > 0 {
        let rest = listing.drop_last();
        lemma_devices_of(rest);
        assert forall|id: u32| devices_of(listing).contains_key(id) implies exists|i: int|
            0 <= i < listing.len() && (#[trigger] listing[i]).0 == id by {
            if id == listing.last().0 {
                assert(listing[listing.len() - 1].0 == id);
            } else {
                assert(devices_of(rest).contains_key(id));
                let i = choose|i: int| 0 <= i < rest.len() && (#[trigger] rest[i]).0 == id;
                assert(listing[i].0 == id);
            }
        }
        assert forall|id: u32|
            (exists|i: int|
                0 <= i < listing.len() && (#[trigger] listing[i]).0
                    == id) implies devices_of(listing).contains_key(id) by {
            let i = choose|i: int| 0 <= i < listing.len() && (#[trigger] listing[i]).0 == id;
            if i < rest.len() {
                assert(rest[i].0 == id);
                assert(devices_of(rest).contains_key(id));
            } else {
                assert(listing.last().0 == id);
            }
        }
        assert forall|i: int|
            0 <= i < listing.len() && (forall|j: int|
                i < j < listing.len() ==> (#[trigger] listing[j]).0
                    != listing[i].0) implies devices_of(listing)[(#[trigger] listing[i]).0]
            == listing[i].1 by {
            if i < rest.len() {
                assert(listing[listing.len() - 1].0 != listing[i].0);
                assert(rest[i] == listing[i]);
                assert forall|j: int| i < j < rest.len() implies (#[trigger] rest[j]).0
                    != rest[i].0 by {
                    assert(listing[j].0 != listing[i].0);
                }
            }
        }
    }
}

impl View for Sinks {
    type V = Map<u32, DeviceView>;

    open spec fn view(&self) -> Map<u32, DeviceView> {
        device_views(self.0@)
    }
}

impl View for Sources {
    type V = Map<u32, DeviceView>;

    open spec fn view(&self) -> Map<u32, DeviceView> {
        device_views(self.0@)
    }
}

/// The devices that `listing` reports, by number.
pub fn collect_devices(listing: Vec<(u32, SinkState)>) -> (devices: HashMap<u32, SinkState>)
    ensures
        device_views(devices@) == devices_of(listing_views(listing@)),
{
    let ghost all = listing@;
    let mut devices: HashMap<u32, SinkState> = HashMap::new();
    assert(listing_views(all.take(0)) =~= Seq::empty());
    assert(device_views(devices@) =~= Map::empty());
    for entry in it: listing
        invariant
            it.seq() == all,
            device_views(devices@) == devices_of(listing_views(all.take(it.index()))),
    {
        let ghost so_far = listing_views(all.take(it.index()));
        let ghost before = devices@;
        let (id, state) = entry;
        devices.insert(id, state);
        proof {
            let grown = listing_views(all.take(it.index() + 1));
            assert(grown =~= so_far.push((id, state@)));
            assert(grown.drop_last() =~= so_far);
            assert(device_views(devices@) =~= device_views(before).insert(id, state@));
        }
    }
    assert(all.take(all.len() as int) =~= all);
    devices
}

/// A device of `devices` that the server calls `name`, if there is one.
pub fn find_by_name(devices: &HashMap<u32, SinkState>, name: &str) -> (found: Option<SinkState>)
    ensures
        match found {
            Some(state) => exists|id: u32|
                #![trigger device_views(devices@)[id]]
                device_views(devices@).contains_key(id) && device_views(devices@)[id] == state@
                    && state@.name == name@,
            None => forall|id: u32|
                #![trigger device_views(devices@)[id]]
                device_views(devices@).contains_key(id) ==> device_views(devices@)[id].name
                    != name@,
        },
{
    let wanted = name.to_owned();
    for entry in it: devices.iter()
        invariant
            wanted@ == name@,
            forall|i: int| 0 <= i < it.index() ==> (*it.seq()[i].1)@.name != name@,
    {
        let (id, state) = entry;
        if state.name == wanted {
            assert(devices@.contains_key(*id) && devices@[*id] == *state);
            assert(device_views(devices@).contains_key(*id) && device_views(devices@)[*id]
                == state@);
            return Some(state.duplicate());
        }
    }
    assert forall|id: u32|
        #![trigger device_views(devices@)[id]]
        device_views(devices@).contains_key(id) implies device_views(devices@)[id].name
        != name@ by {
        assert(devices@.contains_key(id));
    }
    None
}

} // verus!
