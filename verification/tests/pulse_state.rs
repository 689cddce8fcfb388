use jiji::command::{Command, Request};
use jiji::pulseaudio::sink::SinkState;
use jiji::pulseaudio::state::{normalize, Facility, Notice, Operation};
use jiji::pulseaudio::{DeviceKind, PulseAudioState};

fn device(name: &str, mute: bool) -> SinkState {
    SinkState::new(name.to_string(), name.to_uppercase(), mute, vec![65536, 65536])
}

#[test]
fn the_session_opens_once() {
    let mut session = PulseAudioState::new();
    assert!(session.on_state_change(false).is_empty());
    let requests = session.on_state_change(true);
    assert_eq!(requests.len(), 4);
    assert!(matches!(requests[0], Request::Subscribe));
    assert!(matches!(requests[1], Request::GetServerInfo));
    assert!(matches!(requests[2], Request::GetDeviceList { kind: DeviceKind::Sink }));
    assert!(matches!(requests[3], Request::GetDeviceList { kind: DeviceKind::Source }));
    assert!(session.on_state_change(true).is_empty());
    assert!(session.on_state_change(false).is_empty());
    assert!(session.on_state_change(true).is_empty());
}

#[test]
fn notices_are_told_apart() {
    assert_eq!(
        normalize(Some(Facility::Sink), Some(Operation::New), 3),
        Notice::Report { kind: DeviceKind::Sink, index: 3 }
    );
    assert_eq!(
        normalize(Some(Facility::Sink), Some(Operation::Changed), 3),
        Notice::Report { kind: DeviceKind::Sink, index: 3 }
    );
    assert_eq!(
        normalize(Some(Facility::Sink), Some(Operation::Removed), 3),
        Notice::Gone { kind: DeviceKind::Sink, index: 3 }
    );
    assert_eq!(
        normalize(Some(Facility::Source), Some(Operation::New), 0),
        Notice::Report { kind: DeviceKind::Source, index: 0 }
    );
    assert_eq!(
        normalize(Some(Facility::Source), Some(Operation::Removed), u32::MAX),
        Notice::Gone { kind: DeviceKind::Source, index: u32::MAX }
    );
    assert_eq!(normalize(Some(Facility::Server), Some(Operation::Changed), 7), Notice::Server);
    assert_eq!(normalize(Some(Facility::Server), Some(Operation::New), 7), Notice::Ignored);
    assert_eq!(normalize(Some(Facility::Server), Some(Operation::Removed), 7), Notice::Ignored);
    assert_eq!(normalize(Some(Facility::Sink), None, 7), Notice::Ignored);
    assert_eq!(normalize(None, Some(Operation::New), 7), Notice::Ignored);
    for facility in [
        Facility::SinkInput,
        Facility::SourceOutput,
        Facility::Module,
        Facility::Client,
        Facility::SampleCache,
        Facility::Card,
    ] {
        assert_eq!(normalize(Some(facility), Some(Operation::Changed), 1), Notice::Ignored);
    }
}

#[test]
fn a_changed_device_is_asked_for_and_then_applied() {
    let mut session = PulseAudioState::new();
    let observer = session.subscribe();
    let reaction = session.on_event(Some(Facility::Sink), Some(Operation::Changed), 4);
    assert!(reaction.calls.is_none());
    assert!(matches!(
        reaction.request,
        Some(Request::GetDeviceByIndex { kind: DeviceKind::Sink, index: 4 })
    ));
    assert!(session.sinks().0.is_empty());
    let calls = session.on_sink_info(4, Some(device("out", false)));
    assert_eq!(calls, Some(vec![observer]));
    assert_eq!(session.sinks().0[&4].name, "out");
    assert!(session.sources().0.is_empty());
}

#[test]
fn a_device_that_went_while_its_record_was_under_way_stays_gone() {
    let mut session = PulseAudioState::new();
    session.on_device_list(DeviceKind::Sink, vec![(1, device("A", false))]);
    assert_eq!(session.sinks().0.len(), 1);
    let reaction = session.on_event(Some(Facility::Sink), Some(Operation::Changed), 1);
    assert!(reaction.request.is_some());
    let reaction = session.on_event(Some(Facility::Sink), Some(Operation::Removed), 1);
    assert!(reaction.calls.is_some());
    assert!(reaction.request.is_none());
    assert!(session.sinks().0.is_empty());
    assert!(session.on_sink_info(1, Some(device("A", true))).is_none());
    assert!(!session.snapshot().sinks.0.contains_key(&1));
    assert!(session.sinks().0.is_empty());
}

#[test]
fn from_an_empty_mirror_to_a_late_record() {
    let mut session = PulseAudioState::new();
    assert!(session.snapshot().sinks.0.is_empty());
    session.on_device_list(DeviceKind::Sink, vec![(1, device("A", false))]);
    let snapshot = session.snapshot();
    assert_eq!(snapshot.sinks.0.len(), 1);
    assert_eq!(snapshot.sinks.0[&1].name, "A");
    assert!(!snapshot.sinks.0[&1].mute);
    let asked = session.on_event(Some(Facility::Sink), Some(Operation::New), 1);
    assert!(matches!(
        asked.request,
        Some(Request::GetDeviceByIndex { kind: DeviceKind::Sink, index: 1 })
    ));
    session.on_event(Some(Facility::Sink), Some(Operation::Removed), 1);
    assert_eq!(session.snapshot().sinks.0.len(), 0);
    assert!(session.on_sink_info(1, Some(device("A", true))).is_none());
    assert_eq!(session.snapshot().sinks.0.len(), 0);
}

#[test]
fn a_number_that_the_server_gives_again_is_mirrored_again() {
    let mut session = PulseAudioState::new();
    session.on_event(Some(Facility::Sink), Some(Operation::New), 1);
    session.on_event(Some(Facility::Sink), Some(Operation::Removed), 1);
    session.on_event(Some(Facility::Sink), Some(Operation::New), 1);
    assert!(session.on_sink_info(1, Some(device("old", false))).is_none());
    assert!(session.sinks().0.is_empty());
    assert!(session.on_sink_info(1, Some(device("new", false))).is_some());
    assert_eq!(session.sinks().0[&1].name, "new");
    assert!(session.on_sink_info(1, Some(device("stray", false))).is_none());
    assert_eq!(session.sinks().0[&1].name, "new");
}

#[test]
fn only_the_device_that_went_is_dropped() {
    let mut session = PulseAudioState::new();
    session.on_event(Some(Facility::Sink), Some(Operation::New), 1);
    session.on_event(Some(Facility::Sink), Some(Operation::New), 2);
    session.on_event(Some(Facility::Source), Some(Operation::New), 1);
    session.on_event(Some(Facility::Sink), Some(Operation::Removed), 1);
    assert!(session.on_source_info(1, Some(device("mic", false))).is_some());
    assert!(session.on_sink_info(2, Some(device("two", false))).is_some());
    assert!(session.on_sink_info(1, Some(device("one", false))).is_none());
    assert_eq!(session.sinks().0.len(), 1);
    assert_eq!(session.sinks().0[&2].name, "two");
    assert_eq!(session.sources().0[&1].name, "mic");
}

#[test]
fn an_answer_without_a_record_applies_nothing() {
    let mut session = PulseAudioState::new();
    session.on_event(Some(Facility::Source), Some(Operation::Changed), 8);
    assert!(session.on_source_info(8, None).is_none());
    assert!(session.on_source_info(8, Some(device("late", false))).is_none());
    assert!(session.sources().0.is_empty());
}

#[test]
fn a_change_of_the_server_asks_for_its_defaults() {
    let mut session = PulseAudioState::new();
    let observer = session.subscribe();
    let reaction = session.on_event(Some(Facility::Server), Some(Operation::Changed), 0);
    assert!(reaction.calls.is_none());
    assert!(matches!(reaction.request, Some(Request::GetServerInfo)));
    session.on_device_list(
        DeviceKind::Sink,
        vec![(0, device("speakers", false)), (1, device("phones", false))],
    );
    session.on_device_list(DeviceKind::Source, vec![(0, device("mic", true))]);
    let calls = session.on_server_info(Some("phones".to_string()), Some("mic".to_string()));
    assert_eq!(calls, vec![observer]);
    assert_eq!(session.default_sink_name(), "phones");
    assert_eq!(session.default_source_name(), "mic");
    assert_eq!(session.default_sink().unwrap().description, "PHONES");
    assert!(session.default_source().unwrap().mute);
    let calls = session.on_server_info(None, Some("mic".to_string()));
    assert_eq!(calls, vec![observer]);
    assert_eq!(session.default_sink_name(), "");
    assert!(session.default_sink().is_none());
    assert!(session.default_source().is_some());
}

#[test]
fn notices_that_mean_nothing_change_nothing() {
    let mut session = PulseAudioState::new();
    session.subscribe();
    let reaction = session.on_event(Some(Facility::Card), Some(Operation::New), 1);
    assert!(reaction.calls.is_none() && reaction.request.is_none());
    let reaction = session.on_event(None, None, 1);
    assert!(reaction.calls.is_none() && reaction.request.is_none());
    let reaction = session.on_event(Some(Facility::Sink), None, 1);
    assert!(reaction.calls.is_none() && reaction.request.is_none());
    assert!(session.on_sink_info(1, Some(device("stray", false))).is_none());
    assert!(session.sinks().0.is_empty());
}

#[test]
fn a_device_that_was_never_there_still_counts_as_removed() {
    let mut session = PulseAudioState::new();
    let observer = session.subscribe();
    let reaction = session.on_event(Some(Facility::Source), Some(Operation::Removed), 40);
    assert_eq!(reaction.calls, Some(vec![observer]));
    let reaction = session.on_event(Some(Facility::Source), Some(Operation::Removed), 40);
    assert_eq!(reaction.calls, Some(vec![observer]));
}

#[test]
fn the_session_words_its_requests() {
    let mut session = PulseAudioState::new();
    session.on_device_list(
        DeviceKind::Source,
        vec![(
            3,
            SinkState {
                name: "mic".to_string(),
                description: "Mic".to_string(),
                mute: true,
                volume: vec![10000, 20000],
                is_monitor: false,
            },
        )],
    );
    match session.set_default_sink("phones") {
        Request::SetDefault { kind, name } => {
            assert_eq!(kind, DeviceKind::Sink);
            assert_eq!(name, "phones");
        }
        _ => panic!("the default is set by name"),
    }
    match session.set_default_source("mic") {
        Request::SetDefault { kind, name } => {
            assert_eq!(kind, DeviceKind::Source);
            assert_eq!(name, "mic");
        }
        _ => panic!("the default is set by name"),
    }
    match session.toggle_mute(DeviceKind::Source, 3) {
        Some(Request::SetMute { kind, name, mute }) => {
            assert_eq!(kind, DeviceKind::Source);
            assert_eq!(name, "mic");
            assert!(!mute);
        }
        _ => panic!("the device is known"),
    }
    match session.set_volume(DeviceKind::Source, 3, 37) {
        Some(Request::SetVolume { kind, name, volume }) => {
            assert_eq!(kind, DeviceKind::Source);
            assert_eq!(name, "mic");
            assert_eq!(volume, vec![12124, 24248]);
        }
        _ => panic!("the device is known"),
    }
    assert!(session.toggle_mute(DeviceKind::Sink, 3).is_none());
    assert!(session.set_volume(DeviceKind::Source, 4, 37).is_none());
    assert!(matches!(
        session.issue(&Command::SwitchWorkspace { num: 1 }),
        Some(Request::RunCommand { .. })
    ));
}

#[test]
fn the_volume_that_is_set_is_the_volume_that_is_shown() {
    let mut session = PulseAudioState::new();
    session.on_device_list(DeviceKind::Sink, vec![(1, device("out", false))]);
    for percent in [0u32, 1, 12, 13, 37, 50, 99, 100] {
        let volume = match session.set_volume(DeviceKind::Sink, 1, percent) {
            Some(Request::SetVolume { volume, .. }) => volume,
            _ => panic!("the device is known"),
        };
        session.on_event(Some(Facility::Sink), Some(Operation::Changed), 1);
        session.on_sink_info(
            1,
            Some(SinkState::new("out".to_string(), "OUT".to_string(), false, volume)),
        );
        assert_eq!(session.sinks().0[&1].percentage(), percent);
        assert_eq!(session.sinks().0[&1].adjustment(), percent);
    }
}

#[test]
fn a_record_says_what_is_shown_for_it() {
    let quiet = SinkState::new("a".to_string(), "A".to_string(), true, vec![8192, 0]);
    assert_eq!(quiet.percentage(), 13);
    assert_eq!(quiet.adjustment(), 13);
    assert!(!quiet.toggle_mute());
    let loud = SinkState::new("b".to_string(), "B".to_string(), false, vec![98304]);
    assert_eq!(loud.percentage(), 150);
    assert_eq!(loud.adjustment(), 100);
    assert!(loud.toggle_mute());
    let silent = SinkState::new("c".to_string(), "C".to_string(), false, vec![]);
    assert_eq!(silent.percentage(), 0);
    let copy = loud.duplicate();
    assert_eq!(copy.name, "b");
    assert_eq!(copy.volume, vec![98304]);
    assert!(!copy.is_monitor);
}
