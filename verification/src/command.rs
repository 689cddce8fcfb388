//! What a user asks for, and what is sent to the window manager or the audio
//! server for it.
//!
//! Nothing here waits for an answer. What a request changes shows only in the
//! events that come back.

use crate::mirror::{Mirror, MirrorView};
use crate::pulseaudio::sink::SinkState;
use crate::pulseaudio::util::{percentage_to_volume, spec_percentage_to_volume};
use crate::pulseaudio::DeviceKind;
use crate::text::{signed_decimal, to_signed_decimal};
use std::collections::HashMap;
use vstd::prelude::*;
use vstd::string::StringExecFns;

verus! {

broadcast use vstd::std_specs::hash::group_hash_axioms;

/// What a user asks for.
#[derive(Clone, Debug)]
pub enum Command {
    /// Show the workspace with the number `num`.
    SwitchWorkspace { num: i32 },
    /// Use the device called `name` by default.
    SetDefaultDevice { kind: DeviceKind, name: String },
    /// Mute the device `id` if it sounds, and let it sound if it is muted.
    ToggleMute { kind: DeviceKind, id: u32 },
    /// Set the device `id` to `percent` of the normal volume.
    SetVolume { kind: DeviceKind, id: u32, percent: u32 },
}

/// What is sent out.
#[derive(Clone, Debug)]
pub enum Request {
    /// To the window manager: list the workspaces.
    GetWorkspaces,
    /// To the window manager: run the command `text`.
    RunCommand { text: String },
    /// To the audio server: report changes of sinks, of sources and of the
    /// server itself.
    Subscribe,
    /// To the audio server: name the default devices.
    GetServerInfo,
    /// To the audio server: list the devices of `kind`.
    GetDeviceList { kind: DeviceKind },
    /// To the audio server: report the device `index` of `kind`.
    GetDeviceByIndex { kind: DeviceKind, index: u32 },
    /// To the audio server: use the device called `name` by default.
    SetDefault { kind: DeviceKind, name: String },
    /// To the audio server: mute the device called `name`, or let it sound.
    SetMute { kind: DeviceKind, name: String, mute: bool },
    /// To the audio server: set the channels of the device called `name`.
    SetVolume { kind: DeviceKind, name: String, volume: Vec<u32> },
}

/// A command as a value.
pub enum CommandView {
    SwitchWorkspace { num: i32 },
    SetDefaultDevice { kind: DeviceKind, name: Seq<char> },
    ToggleMute { kind: DeviceKind, id: u32 },
    SetVolume { kind: DeviceKind, id: u32, percent: u32 },
}

/// A request as a value.
pub enum RequestView {
    GetWorkspaces,
    RunCommand { text: Seq<char> },
    Subscribe,
    GetServerInfo,
    GetDeviceList { kind: DeviceKind },
    GetDeviceByIndex { kind: DeviceKind, index: u32 },
    SetDefault { kind: DeviceKind, name: Seq<char> },
    SetMute { kind: DeviceKind, name: Seq<char>, mute: bool },
    SetVolume { kind: DeviceKind, name: Seq<char>, volume: Seq<u32> },
}

impl View for Command {
    type V = CommandView;

    open spec fn view(&self) -> CommandView {
        match *self {
            Command::SwitchWorkspace { num } => CommandView::SwitchWorkspace { num },
            Command::SetDefaultDevice { kind, name } => CommandView::SetDefaultDevice {
                kind,
                name: name@,
            },
            Command::ToggleMute { kind, id } => CommandView::ToggleMute { kind, id },
            Command::SetVolume { kind, id, percent } => CommandView::SetVolume {
                kind,
                id,
                percent,
            },
        }
    }
}

impl View for Request {
    type V = RequestView;

    open spec fn view(&self) -> RequestView {
        match *self {
            Request::GetWorkspaces => RequestView::GetWorkspaces,
            Request::RunCommand { text } => RequestView::RunCommand { text: text@ },
            Request::Subscribe => RequestView::Subscribe,
            Request::GetServerInfo => RequestView::GetServerInfo,
            Request::GetDeviceList { kind } => RequestView::GetDeviceList { kind },
            Request::GetDeviceByIndex { kind, index } => RequestView::GetDeviceByIndex {
                kind,
                index,
            },
            Request::SetDefault { kind, name } => RequestView::SetDefault { kind, name: name@ },
            Request::SetMute { kind, name, mute } => RequestView::SetMute {
                kind,
                name: name@,
                mute,
            },
            Request::SetVolume { kind, name, volume } => RequestView::SetVolume {
                kind,
                name: name@,
                volume: volume@,
            },
        }
    }
}

/// The words with which the window manager is told to show a workspace.
pub open spec fn switch_words() -> Seq<char> {
    "workspace number "@
}

/// The words that tell the window manager to show a workspace, letter by
/// letter.
pub proof fn lemma_switch_words()
    ensures
        switch_words() == seq![
            'w', 'o', 'r', 'k', 's', 'p', 'a', 'c', 'e', ' ', 'n', 'u', 'm', 'b', 'e', 'r', ' ',
        ],
{
    reveal_strlit("workspace number ");
    assert(switch_words() =~= seq![
        'w', 'o', 'r', 'k', 's', 'p', 'a', 'c', 'e', ' ', 'n', 'u', 'm', 'b', 'e', 'r', ' ',
    ]);
}

/// The request that `command` leads to, if it leads to one. To mute a device
/// or to set its volume, the device must be in the mirror: the server is
/// addressed by the device's name, and the new channels are made of the
/// recorded ones. A command for a device that is not known leads to nothing.
pub open spec fn spec_issue(mirror: MirrorView, command: CommandView) -> Option<RequestView> {
    match command {
        CommandView::SwitchWorkspace { num } => Some(
            RequestView::RunCommand { text: switch_words() + signed_decimal(num as int) },
        ),
        CommandView::SetDefaultDevice { kind, name } => Some(RequestView::SetDefault { kind, name }),
        CommandView::ToggleMute { kind, id } => if mirror.devices(kind).contains_key(id) {
            Some(
                RequestView::SetMute {
                    kind,
                    name: mirror.devices(kind)[id].name,
                    mute: !mirror.devices(kind)[id].mute,
                },
            )
        } else {
            None
        },
        CommandView::SetVolume { kind, id, percent } => if mirror.devices(kind).contains_key(id) {
            Some(
                RequestView::SetVolume {
                    kind,
                    name: mirror.devices(kind)[id].name,
                    volume: spec_percentage_to_volume(percent, mirror.devices(kind)[id].volume),
                },
            )
        } else {
            None
        },
    }
}

/// The request that shows the workspace with the number `num`.
pub fn switch_workspace(num: i32) -> (request: Request)
    ensures
        request@ == (RequestView::RunCommand {
            text: switch_words() + signed_decimal(num as int),
        }),
{
    let mut text = String::from_str("workspace number ");
    let number = to_signed_decimal(num);
    text.append(number.as_str());
    Request::RunCommand { text }
}

/// The record of the device `id` of `kind`, if the mirror has one.
fn device(mirror: &Mirror, kind: DeviceKind, id: u32) -> (found: Option<&SinkState>)
    ensures
        match found {
            Some(state) => mirror@.devices(kind).contains_key(id) && mirror@.devices(kind)[id]
                == state@,
            None => !mirror@.devices(kind).contains_key(id),
        },
{
    let devices: &HashMap<u32, SinkState> = match kind {
        DeviceKind::Sink => &mirror.sinks().0,
        DeviceKind::Source => &mirror.sources().0,
    };
    devices.get(&id)
}

/// The request that `command` leads to, if it leads to one.
pub fn issue(mirror: &Mirror, command: &Command) -> (request: Option<Request>)
    ensures
        match request {
            Some(r) => spec_issue(mirror@, command@) == Some(r@),
            None => spec_issue(mirror@, command@) is None,
        },
{
    match command {
        Command::SwitchWorkspace { num } => Some(switch_workspace(*num)),
        Command::SetDefaultDevice { kind, name } => Some(
            Request::SetDefault { kind: *kind, name: name.clone() },
        ),
        Command::ToggleMute { kind, id } => match device(mirror, *kind, *id) {
            Some(state) => Some(
                Request::SetMute {
                    kind: *kind,
                    name: state.name.clone(),
                    mute: state.toggle_mute(),
                },
            ),
            None => None,
        },
        Command::SetVolume { kind, id, percent } => match device(mirror, *kind, *id) {
            Some(state) => Some(
                Request::SetVolume {
                    kind: *kind,
                    name: state.name.clone(),
                    volume: percentage_to_volume(*percent, &state.volume),
                },
            ),
            None => None,
        },
    }
}

} // verus!
