use jiji::command::Request;
use jiji::i3::state::EventClass;
use jiji::i3::{I3State, WorkspaceState};
use jiji::pulseaudio::sink::SinkState;
use jiji::pulseaudio::state::{Facility, Operation};
use jiji::pulseaudio::{DeviceKind, PulseAudioState};
use std::collections::{HashMap, VecDeque};

/// An audio server that answers every request in the order of arrival.
struct Server {
    sinks: HashMap<u32, SinkState>,
    sources: HashMap<u32, SinkState>,
    default_sink: Option<String>,
    default_source: Option<String>,
    queue: VecDeque<Request>,
    subscribed: usize,
}

fn device(name: &str, volume: Vec<u32>) -> SinkState {
    SinkState::new(name.to_string(), name.to_string(), false, volume)
}

impl Server {
    fn new() -> Server {
        let mut sinks = HashMap::new();
        sinks.insert(0, device("speakers", vec![65536, 65536]));
        sinks.insert(1, device("phones", vec![32768, 16384]));
        let mut sources = HashMap::new();
        sources.insert(0, device("mic", vec![65536]));
        Server {
            sinks,
            sources,
            default_sink: Some("speakers".to_string()),
            default_source: Some("mic".to_string()),
            queue: VecDeque::new(),
            subscribed: 0,
        }
    }

    fn devices(&mut self, kind: DeviceKind) -> &mut HashMap<u32, SinkState> {
        match kind {
            DeviceKind::Sink => &mut self.sinks,
            DeviceKind::Source => &mut self.sources,
        }
    }

    /// Answers the requests that wait, and counts the calls of observers.
    fn answer_all(&mut self, session: &mut PulseAudioState) -> usize {
        let mut rounds = 0;
        while let Some(request) = self.queue.pop_front() {
            match request {
                Request::Subscribe => self.subscribed += 1,
                Request::GetServerInfo => {
                    session.on_server_info(self.default_sink.clone(), self.default_source.clone());
                    rounds += 1;
                }
                Request::GetDeviceList { kind } => {
                    let mut listing: Vec<(u32, SinkState)> =
                        self.devices(kind).iter().map(|(id, s)| (*id, s.clone())).collect();
                    listing.sort_by_key(|entry| entry.0);
                    session.on_device_list(kind, listing);
                    rounds += 1;
                }
                Request::GetDeviceByIndex { kind, index } => {
                    let info = self.devices(kind).get(&index).cloned();
                    if session.on_device_info(kind, index, info).is_some() {
                        rounds += 1;
                    }
                }
                Request::SetDefault { kind: DeviceKind::Sink, name } => {
                    self.default_sink = Some(name);
                    self.notice(session, Facility::Server, Operation::Changed, 0, &mut rounds);
                }
                Request::SetDefault { kind: DeviceKind::Source, name } => {
                    self.default_source = Some(name);
                    self.notice(session, Facility::Server, Operation::Changed, 0, &mut rounds);
                }
                Request::SetMute { kind, name, mute } => {
                    let changed = self.change(kind, &name, |s| s.mute = mute);
                    self.notice_all(session, kind, changed, &mut rounds);
                }
                Request::SetVolume { kind, name, volume } => {
                    let changed = self.change(kind, &name, |s| s.volume = volume.clone());
                    self.notice_all(session, kind, changed, &mut rounds);
                }
                Request::GetWorkspaces | Request::RunCommand { .. } => {
                    panic!("not a request to the audio server")
                }
            }
        }
        rounds
    }

    fn change<F: Fn(&mut SinkState)>(&mut self, kind: DeviceKind, name: &str, f: F) -> Vec<u32> {
        let mut changed = vec![];
        for (id, state) in self.devices(kind).iter_mut() {
            if state.name == name {
                f(state);
                changed.push(*id);
            }
        }
        changed
    }

    fn notice_all(
        &mut self,
        session: &mut PulseAudioState,
        kind: DeviceKind,
        ids: Vec<u32>,
        rounds: &mut usize,
    ) {
        let facility = match kind {
            DeviceKind::Sink => Facility::Sink,
            DeviceKind::Source => Facility::Source,
        };
        for id in ids {
            self.notice(session, facility, Operation::Changed, id, rounds);
        }
    }

    fn notice(
        &mut self,
        session: &mut PulseAudioState,
        facility: Facility,
        operation: Operation,
        index: u32,
        rounds: &mut usize,
    ) {
        let reaction = session.on_event(Some(facility), Some(operation), index);
        if reaction.calls.is_some() {
            *rounds += 1;
        }
        if let Some(request) = reaction.request {
            self.queue.push_back(request);
        }
    }
}

#[test]
fn a_session_with_an_audio_server() {
    let mut server = Server::new();
    let mut session = PulseAudioState::new();
    session.subscribe();

    server.queue.extend(session.on_state_change(false));
    assert_eq!(server.answer_all(&mut session), 0);
    server.queue.extend(session.on_state_change(true));
    server.queue.extend(session.on_state_change(true));
    assert_eq!(server.answer_all(&mut session), 3);
    assert_eq!(server.subscribed, 1);
    assert_eq!(session.sinks().0.len(), 2);
    assert_eq!(session.sources().0.len(), 1);
    assert_eq!(session.default_sink().unwrap().name, "speakers");
    assert_eq!(session.default_source().unwrap().name, "mic");

    server.queue.push_back(session.set_default_sink("phones"));
    assert_eq!(server.answer_all(&mut session), 1);
    let phones = session.default_sink().unwrap();
    assert_eq!(phones.name, "phones");
    assert_eq!(phones.percentage(), 50);

    server.queue.extend(session.set_volume(DeviceKind::Sink, 1, 80));
    assert_eq!(server.answer_all(&mut session), 1);
    let phones = session.default_sink().unwrap();
    assert_eq!(phones.percentage(), 80);
    assert_eq!(phones.volume, vec![52429, 26214]);

    server.queue.extend(session.toggle_mute(DeviceKind::Sink, 1));
    assert_eq!(server.answer_all(&mut session), 1);
    assert!(session.default_sink().unwrap().mute);
    server.queue.extend(session.toggle_mute(DeviceKind::Sink, 1));
    assert_eq!(server.answer_all(&mut session), 1);
    assert!(!session.default_sink().unwrap().mute);

    // The phones are pulled while their record is asked for.
    let mut rounds = 0;
    server.notice(&mut session, Facility::Sink, Operation::Changed, 1, &mut rounds);
    let late = server.sinks.remove(&1);
    server.notice(&mut session, Facility::Sink, Operation::Removed, 1, &mut rounds);
    assert_eq!(rounds, 1);
    assert!(session.on_sink_info(1, late).is_none());
    server.queue.clear();
    assert_eq!(session.sinks().0.len(), 1);
    assert!(session.default_sink().is_none());
    assert!(session.set_volume(DeviceKind::Sink, 1, 10).is_none());
}

#[test]
fn a_session_with_a_window_manager() {
    let listing = |nums: &[i32]| -> Vec<WorkspaceState> {
        nums.iter()
            .map(|num| WorkspaceState {
                num: *num,
                name: format!("{}", num),
                output: if num % 2 == 0 { "even".to_string() } else { "odd".to_string() },
                visible: false,
                focused: false,
                urgent: false,
            })
            .collect()
    };
    let mut session = I3State::new();
    session.subscribe();
    let mut fetches = 0;
    let mut rounds = 0;
    if session.start().is_some() {
        fetches += 1;
    }
    // Ten notices come while the first listing is under way, five while the
    // second is, none while the third is; then one comes while nothing is.
    for burst in [10, 5, 0, 1] {
        for _ in 0..burst {
            if session.on_event(EventClass::Workspace).is_some() {
                fetches += 1;
            }
        }
        if fetches > rounds {
            let delivery = session.on_workspaces(listing(&[4, 3, 2, 1]));
            rounds += delivery.calls.len();
            if delivery.request.is_some() {
                fetches += 1;
            }
        }
    }
    // The listing was asked for at the start, once for each of the two
    // bursts, and once for the single notice: not once for each notice.
    assert_eq!(fetches, 4);
    assert_eq!(rounds, 4);
    assert!(session.on_event(EventClass::Workspace).is_some());
    session.on_workspaces(listing(&[6, 5]));
    assert_eq!(session.workspaces().len(), 2);
    assert_eq!(session.workspaces().get("even").unwrap()[0].num, 6);
    assert_eq!(session.workspaces().get("odd").unwrap()[0].num, 5);
}
