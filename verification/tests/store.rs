use jiji::event::{NormalizedEvent, Payload};
use jiji::pulseaudio::sink::SinkState;
use jiji::pulseaudio::DeviceKind;
use jiji::store::Store;

fn events() -> Vec<NormalizedEvent> {
    let record = || SinkState::new("A".to_string(), "A".to_string(), false, vec![1]);
    vec![
        NormalizedEvent::Added { kind: DeviceKind::Sink, id: 1, entity: record() },
        NormalizedEvent::Changed { kind: DeviceKind::Sink, id: 1, entity: record() },
        NormalizedEvent::Changed { kind: DeviceKind::Sink, id: 1, entity: record() },
        NormalizedEvent::Removed { kind: DeviceKind::Sink, id: 1 },
        NormalizedEvent::Removed { kind: DeviceKind::Sink, id: 1 },
        NormalizedEvent::Reset { payload: Payload::Sinks(vec![]) },
        NormalizedEvent::Reset {
            payload: Payload::Server { default_sink: String::new(), default_source: String::new() },
        },
    ]
}

fn calls_of_all(store: &mut Store) -> Vec<Vec<u64>> {
    events().into_iter().map(|event| store.apply(event)).collect()
}

#[test]
fn without_observers_every_event_is_still_announced() {
    let mut store = Store::new();
    let rounds = calls_of_all(&mut store);
    assert_eq!(rounds.len(), 7);
    assert!(rounds.iter().all(|calls| calls.is_empty()));
}

#[test]
fn one_observer_is_called_once_for_each_event() {
    let mut store = Store::new();
    let handle = store.subscribe();
    let rounds = calls_of_all(&mut store);
    assert_eq!(rounds.len(), 7);
    assert!(rounds.iter().all(|calls| calls == &vec![handle]));
}

#[test]
fn many_observers_are_each_called_once_for_each_event() {
    let mut store = Store::new();
    let mut handles: Vec<u64> = (0..5).map(|_| store.subscribe()).collect();
    handles.sort();
    assert_eq!(store.observers(), 5);
    let rounds = calls_of_all(&mut store);
    assert_eq!(rounds.len(), 7);
    for mut calls in rounds {
        calls.sort();
        assert_eq!(calls, handles);
    }
}

#[test]
fn an_observer_that_has_left_is_not_called() {
    let mut store = Store::new();
    let a = store.subscribe();
    let b = store.subscribe();
    assert!(store.unsubscribe(a));
    assert!(!store.unsubscribe(a));
    let calls = store.apply(NormalizedEvent::Removed { kind: DeviceKind::Source, id: 0 });
    assert_eq!(calls, vec![b]);
    assert!(store.unsubscribe(b));
    let calls = store.apply(NormalizedEvent::Removed { kind: DeviceKind::Source, id: 0 });
    assert!(calls.is_empty());
    assert_eq!(store.observers(), 0);
}

#[test]
fn the_store_shows_what_was_applied() {
    let mut store = Store::new();
    store.apply(NormalizedEvent::Added {
        kind: DeviceKind::Source,
        id: 2,
        entity: SinkState::new("mic".to_string(), "Mic".to_string(), true, vec![]),
    });
    assert_eq!(store.mirror().sources().0[&2].description, "Mic");
    assert_eq!(store.snapshot().sources.0.len(), 1);
}
