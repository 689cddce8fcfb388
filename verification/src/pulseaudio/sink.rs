//! The record of one audio device.

use crate::pulseaudio::util::{
    max_volume, spec_max_volume, spec_volume_to_percentage, volume_to_percentage, PERCENT_MAX,
};
use vstd::prelude::*;

verus! {

/// What is known of one device of the audio server, a sink or a source. A
/// record is made whole from what the server reports and is never changed in
/// part: a later report replaces it.
#[derive(Clone, Debug)]
pub struct SinkState {
    /// The server's name for the device: its stable key.
    pub name: String,
    /// The text shown for the device.
    pub description: String,
    pub mute: bool,
    /// One volume per channel.
    pub volume: Vec<u32>,
    /// The device is a source that only gives back what a sink plays.
    pub is_monitor: bool,
}

/// A source is recorded as a sink is.
pub type SourceState = SinkState;

/// A device record as a value.
pub struct DeviceView {
    pub name: Seq<char>,
    pub description: Seq<char>,
    pub mute: bool,
    pub volume: Seq<u32>,
    pub is_monitor: bool,
}

impl View for SinkState {
    type V = DeviceView;

    open spec fn view(&self) -> DeviceView {
        DeviceView {
            name: self.name@,
            description: self.description@,
            mute: self.mute,
            volume: self.volume@,
            is_monitor: self.is_monitor,
        }
    }
}

impl DeviceView {
    /// The percentage shown for the device: that of its loudest channel.
    pub open spec fn percentage(self) -> int {
        spec_volume_to_percentage(spec_max_volume(self.volume))
    }

    /// Where a slider from 0 to 100 stands for the device.
    pub open spec fn adjustment(self) -> int {
        if self.percentage() > PERCENT_MAX as int {
            PERCENT_MAX as int
        } else {
            self.percentage()
        }
    }
}

impl SinkState {
    /// The record of a device that is no monitor.
    pub fn new(name: String, description: String, mute: bool, volume: Vec<u32>) -> (state:
        SinkState)
        ensures
            state@ == (DeviceView {
                name: name@,
                description: description@,
                mute,
                volume: volume@,
                is_monitor: false,
            }),
    {
        SinkState { name, description, mute, volume, is_monitor: false }
    }

    /// A copy of the record.
    pub fn duplicate(&self) -> (copy: SinkState)
        ensures
            copy@ == self@,
    {
        SinkState {
            name: self.name.clone(),
            description: self.description.clone(),
            mute: self.mute,
            volume: self.volume.clone(),
            is_monitor: self.is_monitor,
        }
    }

    /// The mute flag that a toggle asks the server for: the opposite of the
    /// recorded one.
    pub fn toggle_mute(&self) -> (mute: bool)
        ensures
            mute == !self@.mute,
    {
        !self.mute
    }

    /// The percentage shown for the device.
    pub fn percentage(&self) -> (percent: u32)
        ensures
            percent == self@.percentage(),
    {
        volume_to_percentage(max_volume(&self.volume))
    }

    /// Where a slider from 0 to 100 stands for the device.
    pub fn adjustment(&self) -> (value: u32)
        ensures
            value == self@.adjustment(),
    {
        let percent = self.percentage();
        if percent > PERCENT_MAX {
            PERCENT_MAX
        } else {
            percent
        }
    }
}

} // verus!
