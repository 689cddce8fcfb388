//! A mirror of the state of a window manager's workspaces and of an audio
//! server's devices, kept current by events and read through snapshots.
//!
//! * `i3`: the records of workspaces, their grouping by output, and the
//!   session with the window manager.
//! * `pulseaudio`: the records of audio devices, the arithmetic of volumes,
//!   and the session with the audio server.
//! * `command`: what a user asks for, and the requests sent out for it.
//! * `event`: the one shape of event that both sources are turned into.
//! * `mirror`: the store that the events are applied to.
//! * `notifier`: the observers of a store.
//! * `store`: a mirror with its observers.
//! * `text`: numbers as text.

pub mod command;
pub mod event;
pub mod i3;
pub mod mirror;
pub mod notifier;
pub mod pulseaudio;
pub mod store;
pub mod text;
