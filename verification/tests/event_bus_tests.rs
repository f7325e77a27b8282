use ayiou::event_bus::{RuntimeEvent, RuntimeEventBus};
use tokio::sync::broadcast::error::TryRecvError;

#[derive(Clone, Debug, PartialEq, Eq)]
struct TestEvent {
    value: usize,
}

impl RuntimeEvent for TestEvent {
    fn topic() -> &'static str {
        "test-event"
    }
}

#[derive(Clone, Debug, PartialEq, Eq)]
struct OtherEvent;

impl RuntimeEvent for OtherEvent {
    fn topic() -> &'static str {
        "other-event"
    }
}

#[test]
fn event_bus_delivers_typed_events_to_subscribers() {
    let mut bus = RuntimeEventBus::new(8);
    let mut rx = bus.subscribe::<TestEvent>().unwrap();

    let subscribers = bus.publish(TestEvent { value: 7 }).unwrap();
    let event = rx.try_recv().unwrap();

    assert_eq!(subscribers, 1);
    assert_eq!(event, TestEvent { value: 7 });
}

#[test]
fn event_bus_is_scoped_to_one_runtime() {
    let mut first = RuntimeEventBus::new(8);
    let mut second = RuntimeEventBus::new(8);
    let mut rx = first.subscribe::<TestEvent>().unwrap();

    let subscribers = second.publish(TestEvent { value: 7 }).unwrap();

    assert_eq!(subscribers, 0);
    assert!(matches!(rx.try_recv(), Err(TryRecvError::Empty)));
}

#[test]
fn event_bus_reports_lag_for_slow_subscribers() {
    let mut bus = RuntimeEventBus::new(1);
    let mut rx = bus.subscribe::<TestEvent>().unwrap();

    bus.publish(TestEvent { value: 1 }).unwrap();
    bus.publish(TestEvent { value: 2 }).unwrap();

    assert!(matches!(rx.try_recv(), Err(TryRecvError::Lagged(_))));
    assert_eq!(rx.try_recv().unwrap(), TestEvent { value: 2 });
}

#[test]
fn event_bus_keeps_event_types_isolated_by_topic() {
    let mut bus = RuntimeEventBus::new(8);
    let mut test_rx = bus.subscribe::<TestEvent>().unwrap();
    let mut other_rx = bus.subscribe::<OtherEvent>().unwrap();

    bus.publish(TestEvent { value: 7 }).unwrap();

    assert_eq!(test_rx.try_recv().unwrap(), TestEvent { value: 7 });
    assert!(matches!(other_rx.try_recv(), Err(TryRecvError::Empty)));
}

#[test]
fn event_bus_opens_one_channel_per_type() {
    let mut bus = RuntimeEventBus::new(0);
    assert_eq!(bus.capacity(), 1);
    assert_eq!(bus.topic_count(), 0);
    assert_eq!(bus.publish(TestEvent { value: 1 }).unwrap(), 0);
    assert_eq!(bus.topic_count(), 1);
    let _rx = bus.subscribe::<TestEvent>().unwrap();
    assert_eq!(bus.topic_count(), 1);
    let _other = bus.subscribe::<OtherEvent>().unwrap();
    assert_eq!(bus.topic_count(), 2);
    assert_eq!(bus.publish(TestEvent { value: 2 }).unwrap(), 1);
}
